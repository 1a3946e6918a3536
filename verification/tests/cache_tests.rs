use context7_cache::cache::Cache;
use context7_cache::clear::ClearSeen;
use context7_cache::clear::ClearStep;
use context7_cache::fresh::Timestamp;
use context7_cache::fresh::is_fresh as entry_is_fresh;
use context7_cache::get::GetSeen;
use context7_cache::get::GetStep;
use context7_cache::get::Stat;
use context7_cache::fingerprint::CacheArgs;
use context7_cache::key::cache_path_in;
use context7_cache::notice::OperationResult;
use context7_cache::put::PutSeen;
use context7_cache::put::PutStep;
use context7_cache::store::EntryRead;
use context7_cache::store::Listing;
use context7_cache::store::Removal;
use context7_cache::store::Serialized;
use context7_cache::store::Written;
use context7_cache::store::tally_removals;
use context7_cache::ttl::Ttl;
use context7_cache::types::QueryDocsArguments;
use context7_cache::types::ResolveLibraryIdArguments;
use serde_json::Value;

// ---------------------------------------------------------------------------
// The result of a tool call, as the tests store it: text blocks, an optional
// error flag and optional structured content, written as a JSON document.
// ---------------------------------------------------------------------------

#[derive(Default, Debug, Clone, PartialEq)]
struct CallToolResult {
    content: Vec<String>,
    is_error: Option<bool>,
    structured_content: Option<serde_json::Map<String, Value>>,
}

fn encode(result: &CallToolResult) -> String {
    let mut blocks = Vec::new();
    for text in &result.content {
        let mut block = serde_json::Map::new();
        block.insert("text".to_string(), Value::String(text.clone()));
        block.insert("type".to_string(), Value::String("text".to_string()));
        blocks.push(Value::Object(block));
    }
    let mut document = serde_json::Map::new();
    document.insert("content".to_string(), Value::Array(blocks));
    if let Some(flag) = result.is_error {
        document.insert("isError".to_string(), Value::Bool(flag));
    }
    if let Some(structured) = &result.structured_content {
        document.insert("structuredContent".to_string(), Value::Object(structured.clone()));
    }
    serde_json::to_string(&Value::Object(document)).expect("Failed to serialize CallToolResult")
}

fn decode(text: &str) -> Option<CallToolResult> {
    let document: Value = serde_json::from_str(text).ok()?;
    let document = document.as_object()?;
    let mut content = Vec::new();
    for block in document.get("content")?.as_array()? {
        content.push(block.as_object()?.get("text")?.as_str()?.to_string());
    }
    let is_error = match document.get("isError") {
        None | Some(Value::Null) => None,
        Some(flag) => Some(flag.as_bool()?),
    };
    let structured_content = match document.get("structuredContent") {
        None | Some(Value::Null) => None,
        Some(structured) => Some(structured.as_object()?.clone()),
    };
    Some(CallToolResult { content, is_error, structured_content })
}

// ---------------------------------------------------------------------------
// A directory in memory with a clock of its own. It does what a host does
// for the cache: it carries out the step the cache asks for and hands back
// what it observed.
// ---------------------------------------------------------------------------

struct File {
    path: String,
    text: String,
    modified: i128,
}

struct TempDir {
    root: String,
    mounted: bool,
    files: Vec<File>,
    now: i128,
    undeletable: Vec<String>,
    read_only: bool,
    listings: usize,
    reads: usize,
}

impl TempDir {
    fn new() -> TempDir {
        TempDir {
            root: "/tmp/test_cache".to_string(),
            mounted: true,
            files: Vec::new(),
            now: 1_700_000_000_000_000_000,
            undeletable: Vec::new(),
            read_only: false,
            listings: 0,
            reads: 0,
        }
    }

    fn missing() -> TempDir {
        let mut dir = TempDir::new();
        dir.mounted = false;
        dir
    }

    fn path(&self) -> &str {
        &self.root
    }

    fn join(&self, name: &str) -> String {
        format!("{}/{}", self.root, name)
    }

    fn sleep(&mut self, millis: u64) {
        self.now += i128::from(millis) * 1_000_000;
    }

    fn write(&mut self, path: &str, text: &str) -> Written {
        if !self.mounted {
            return Written::Failed("No such file or directory (os error 2)".to_string());
        }
        if self.read_only {
            return Written::Failed("Read-only file system (os error 30)".to_string());
        }
        self.files.retain(|file| file.path != path);
        self.files.push(File { path: path.to_string(), text: text.to_string(), modified: self.now });
        Written::Stored
    }

    fn read_to_string(&mut self, path: &str) -> Option<String> {
        self.reads += 1;
        self.files.iter().find(|file| file.path == path).map(|file| file.text.clone())
    }

    fn stat(&self, path: &str) -> Stat {
        let modified = self
            .files
            .iter()
            .find(|file| file.path == path)
            .map(|file| Timestamp { nanos: file.modified });
        Stat { modified, now: Timestamp { nanos: self.now } }
    }

    fn list(&mut self) -> Listing {
        self.listings += 1;
        if !self.mounted {
            return Listing::Failed("No such file or directory (os error 2)".to_string());
        }
        let prefix = format!("{}/", self.root);
        Listing::Names(
            self.files.iter().map(|file| file.path[prefix.len()..].to_string()).collect(),
        )
    }

    fn remove(&mut self, path: &str) -> Removal {
        if self.undeletable.iter().any(|locked| locked == path) {
            return Removal {
                path: path.to_string(),
                error: Some("Permission denied (os error 13)".to_string()),
            };
        }
        let before = self.files.len();
        self.files.retain(|file| file.path != path);
        let error = if self.files.len() < before {
            None
        } else {
            Some("No such file or directory (os error 2)".to_string())
        };
        Removal { path: path.to_string(), error }
    }

    fn has_file(&self, path: &str) -> bool {
        self.files.iter().any(|file| file.path == path)
    }
}

fn cache_path<T: CacheArgs>(cache_dir: &str, tool_name: &str, args: &T) -> String {
    cache_path_in(cache_dir, tool_name, args)
}

fn is_fresh(dir: &TempDir, path: &str, ttl: Ttl) -> bool {
    let stat = dir.stat(path);
    entry_is_fresh(stat.modified, stat.now, ttl)
}

fn run_get<T: CacheArgs>(
    cache: &mut Cache,
    dir: &mut TempDir,
    setting: Option<&str>,
    tool_name: &str,
    args: &T,
) -> Option<CallToolResult> {
    let mut stat = None;
    let mut read = None;
    loop {
        match cache.get(tool_name, args, GetSeen { stat, read: read.take() }) {
            GetStep::Probe => {
                cache.observe_root(dir.mounted);
            }
            GetStep::Configure => cache.observe_setting(setting),
            GetStep::Stat { path } => stat = Some(dir.stat(&path)),
            GetStep::Read { path } => {
                read = Some(match dir.read_to_string(&path) {
                    None => EntryRead::Unreadable,
                    Some(text) => match decode(&text) {
                        None => EntryRead::Malformed,
                        Some(result) => EntryRead::Payload(result),
                    },
                })
            }
            GetStep::Miss => return None,
            GetStep::Hit(result) => return Some(result),
        }
    }
}

fn run_put<T: CacheArgs>(
    cache: &mut Cache,
    dir: &mut TempDir,
    tool_name: &str,
    args: &T,
    result: Option<&CallToolResult>,
) -> Option<String> {
    let mut seen = PutSeen { serialized: None, written: None };
    loop {
        match cache.put(tool_name, args, &seen) {
            PutStep::Probe => {
                cache.observe_root(dir.mounted);
            }
            PutStep::Serialize => {
                seen.serialized = Some(match result {
                    Some(result) => Serialized::Text(encode(result)),
                    None => Serialized::Failed,
                })
            }
            PutStep::Write { path, text } => seen.written = Some(dir.write(&path, &text)),
            PutStep::Done(notice) => return notice.map(|notice| notice.text),
        }
    }
}

fn run_clear(cache: &mut Cache, dir: &mut TempDir) -> OperationResult {
    let mut seen = ClearSeen { listing: None, removals: None };
    loop {
        match cache.clear(&seen) {
            ClearStep::Probe => {
                cache.observe_root(dir.mounted);
            }
            ClearStep::List { root } => {
                assert_eq!(root, dir.root);
                seen.listing = Some(dir.list());
            }
            ClearStep::Remove { paths } => {
                seen.removals = Some(paths.iter().map(|path| dir.remove(path)).collect())
            }
            ClearStep::Done(result) => return result,
        }
    }
}

fn cache_get<T: CacheArgs>(
    dir: &mut TempDir,
    tool_name: &str,
    args: &T,
    ttl: Ttl,
) -> Option<CallToolResult> {
    let mut cache = Cache::resolved(dir.path(), true, ttl);
    run_get(&mut cache, dir, None, tool_name, args)
}

fn cache_put<T: CacheArgs>(dir: &mut TempDir, tool_name: &str, args: &T, result: &CallToolResult) {
    let mut cache = Cache::resolved(dir.path(), true, Ttl::from_days(1));
    let warning = run_put(&mut cache, dir, tool_name, args, Some(result));
    assert_eq!(warning, None, "Failed to write cache file");
}

fn cache_clear(dir: &mut TempDir) -> (u64, Vec<String>) {
    let cache = Cache::resolved(dir.path(), true, Ttl::from_days(1));
    let listing = dir.list();
    let paths = match cache.clear(&ClearSeen { listing: Some(listing), removals: None }) {
        ClearStep::Remove { paths } => paths,
        step => panic!("Failed to read cache dir: {:?}", step),
    };
    let removals: Vec<Removal> = paths.iter().map(|path| dir.remove(path)).collect();
    tally_removals(&removals)
}

// ---------------------------------------------------------------------------
// Results for the tests
// ---------------------------------------------------------------------------

fn make_text_result(text: &str) -> CallToolResult {
    CallToolResult { content: vec![text.to_string()], ..Default::default() }
}

fn make_structured_result(text: &str, key: &str, value: &str) -> CallToolResult {
    let mut map = serde_json::Map::new();
    map.insert(key.to_string(), Value::String(value.to_string()));
    CallToolResult {
        content: vec![text.to_string()],
        structured_content: Some(map),
        ..Default::default()
    }
}

// --- Cache put / get ---

#[test]
fn test_cache_put_then_get() {
    let mut dir = TempDir::new();
    let args = QueryDocsArguments {
        library_id: "/vercel/next.js".to_string(),
        query: "middleware".to_string(),
    };
    let result = make_text_result("cached documentation");
    let ttl = Ttl::from_secs(3600);

    cache_put(&mut dir, "query_docs", &args, &result);
    let cached = cache_get(&mut dir, "query_docs", &args, ttl);

    assert!(cached.is_some(), "Should get a cache hit after put");
    assert_eq!(cached.unwrap(), result);
}

#[test]
fn test_cache_put_then_get_with_structured_content() {
    let mut dir = TempDir::new();
    let args = QueryDocsArguments {
        library_id: "/vercel/next.js".to_string(),
        query: "middleware".to_string(),
    };
    let result = make_structured_result("markdown text", "key", "value");
    let ttl = Ttl::from_secs(3600);

    cache_put(&mut dir, "query_docs", &args, &result);
    let cached = cache_get(&mut dir, "query_docs", &args, ttl).unwrap();

    assert_eq!(cached.structured_content, result.structured_content);
}

#[test]
fn test_cache_miss_on_empty_directory() {
    let mut dir = TempDir::new();
    let args = QueryDocsArguments {
        library_id: "/vercel/next.js".to_string(),
        query: "middleware".to_string(),
    };
    let ttl = Ttl::from_secs(3600);

    let cached = cache_get(&mut dir, "query_docs", &args, ttl);
    assert!(cached.is_none(), "Empty cache should return None");
}

#[test]
fn test_cache_miss_on_different_args() {
    let mut dir = TempDir::new();
    let args1 = QueryDocsArguments {
        library_id: "/vercel/next.js".to_string(),
        query: "middleware".to_string(),
    };
    let args2 = QueryDocsArguments {
        library_id: "/vercel/next.js".to_string(),
        query: "routing".to_string(),
    };
    let result = make_text_result("cached for middleware");
    let ttl = Ttl::from_secs(3600);

    cache_put(&mut dir, "query_docs", &args1, &result);
    let cached = cache_get(&mut dir, "query_docs", &args2, ttl);

    assert!(
        cached.is_none(),
        "Different args should not produce a cache hit"
    );
}

#[test]
fn test_cache_miss_on_different_tool_name() {
    let mut dir = TempDir::new();
    let args = QueryDocsArguments {
        library_id: "/vercel/next.js".to_string(),
        query: "middleware".to_string(),
    };
    let result = make_text_result("cached content");
    let ttl = Ttl::from_secs(3600);

    cache_put(&mut dir, "query_docs", &args, &result);
    let cached = cache_get(&mut dir, "resolve_library_id", &args, ttl);

    assert!(
        cached.is_none(),
        "Different tool names should not share cache entries"
    );
}

#[test]
fn test_cache_put_overwrites_existing() {
    let mut dir = TempDir::new();
    let args = QueryDocsArguments {
        library_id: "/vercel/next.js".to_string(),
        query: "middleware".to_string(),
    };
    let ttl = Ttl::from_secs(3600);

    let result1 = make_text_result("first version");
    cache_put(&mut dir, "query_docs", &args, &result1);

    let result2 = make_text_result("second version");
    cache_put(&mut dir, "query_docs", &args, &result2);

    let cached = cache_get(&mut dir, "query_docs", &args, ttl).unwrap();
    assert_eq!(cached, result2, "Should return the latest cached value");
}

#[test]
fn test_cache_resolve_library_id() {
    let mut dir = TempDir::new();
    let args = ResolveLibraryIdArguments {
        library_name: "react".to_string(),
        query: "hooks".to_string(),
    };
    let result = make_structured_result(r#"{"results":[]}"#, "results", "[]");
    let ttl = Ttl::from_secs(3600);

    cache_put(&mut dir, "resolve_library_id", &args, &result);
    let cached = cache_get(&mut dir, "resolve_library_id", &args, ttl);

    assert!(cached.is_some(), "Should cache resolve_library_id results");
    assert_eq!(cached.unwrap(), result);
}

// --- Staleness ---

#[test]
fn test_cache_fresh_entry_is_returned() {
    let mut dir = TempDir::new();
    let args = QueryDocsArguments {
        library_id: "/test/lib".to_string(),
        query: "test".to_string(),
    };
    let result = make_text_result("fresh content");
    let ttl = Ttl::from_secs(3600); // 1 hour

    cache_put(&mut dir, "query_docs", &args, &result);
    // Just written, so it should be fresh
    let cached = cache_get(&mut dir, "query_docs", &args, ttl);
    assert!(
        cached.is_some(),
        "Freshly written cache entry should be returned"
    );
}

#[test]
fn test_cache_stale_entry_is_not_returned() {
    let mut dir = TempDir::new();
    let args = QueryDocsArguments {
        library_id: "/test/lib".to_string(),
        query: "test".to_string(),
    };
    let result = make_text_result("will become stale");
    // Use a very short TTL
    let ttl = Ttl::from_millis(50);

    cache_put(&mut dir, "query_docs", &args, &result);

    // Wait for the entry to become stale
    dir.sleep(100);

    let cached = cache_get(&mut dir, "query_docs", &args, ttl);
    assert!(cached.is_none(), "Stale cache entry should not be returned");
}

#[test]
fn test_cache_zero_ttl_always_stale() {
    let mut dir = TempDir::new();
    let args = QueryDocsArguments {
        library_id: "/test/lib".to_string(),
        query: "test".to_string(),
    };
    let result = make_text_result("zero ttl content");
    let ttl = Ttl::from_secs(0);

    cache_put(&mut dir, "query_docs", &args, &result);
    let cached = cache_get(&mut dir, "query_docs", &args, ttl);

    assert!(
        cached.is_none(),
        "Zero TTL should always treat entries as stale"
    );
}

#[test]
fn test_is_fresh_nonexistent_file() {
    let dir = TempDir::new();
    assert!(
        !is_fresh(&dir, "/nonexistent/path/file.json", Ttl::from_secs(3600)),
        "Non-existent file should not be fresh"
    );
}

#[test]
fn test_is_fresh_with_large_ttl() {
    let mut dir = TempDir::new();
    let path = dir.join("test.json");
    dir.write(&path, "{}");

    let one_year = Ttl::from_secs(365 * 24 * 60 * 60);
    assert!(
        is_fresh(&dir, &path, one_year),
        "Just-written file should be fresh with a large TTL"
    );
}

// --- Cache clear ---

#[test]
fn test_clear_empty_cache() {
    let mut dir = TempDir::new();
    let (removed, errors) = cache_clear(&mut dir);

    assert_eq!(removed, 0, "Should remove 0 entries from empty cache");
    assert!(errors.is_empty(), "Should have no errors on empty cache");
}

#[test]
fn test_clear_removes_json_files() {
    let mut dir = TempDir::new();
    let args1 = QueryDocsArguments {
        library_id: "/lib/one".to_string(),
        query: "query one".to_string(),
    };
    let args2 = QueryDocsArguments {
        library_id: "/lib/two".to_string(),
        query: "query two".to_string(),
    };

    cache_put(&mut dir, "query_docs", &args1, &make_text_result("one"));
    cache_put(&mut dir, "query_docs", &args2, &make_text_result("two"));

    let (removed, errors) = cache_clear(&mut dir);

    assert_eq!(removed, 2, "Should remove 2 cache entries");
    assert!(errors.is_empty());

    // Verify files are gone
    let ttl = Ttl::from_secs(3600);
    assert!(cache_get(&mut dir, "query_docs", &args1, ttl).is_none());
    assert!(cache_get(&mut dir, "query_docs", &args2, ttl).is_none());
}

#[test]
fn test_clear_leaves_non_json_files() {
    let mut dir = TempDir::new();

    // Create a non-json file
    let non_json = dir.join("README.txt");
    dir.write(&non_json, "do not delete me");

    // Create a cache entry
    let args = QueryDocsArguments {
        library_id: "/lib/test".to_string(),
        query: "test".to_string(),
    };
    cache_put(&mut dir, "query_docs", &args, &make_text_result("cached"));

    let (removed, errors) = cache_clear(&mut dir);

    assert_eq!(removed, 1, "Should remove only the json file");
    assert!(errors.is_empty());
    assert!(
        dir.has_file(&non_json),
        "Non-JSON files should not be removed by clear"
    );
}

#[test]
fn test_clear_then_put_works() {
    let mut dir = TempDir::new();
    let args = QueryDocsArguments {
        library_id: "/lib/test".to_string(),
        query: "test".to_string(),
    };
    let ttl = Ttl::from_secs(3600);

    cache_put(
        &mut dir,
        "query_docs",
        &args,
        &make_text_result("before clear"),
    );
    cache_clear(&mut dir);

    assert!(
        cache_get(&mut dir, "query_docs", &args, ttl).is_none(),
        "Cache should be empty after clear"
    );

    cache_put(
        &mut dir,
        "query_docs",
        &args,
        &make_text_result("after clear"),
    );
    let cached = cache_get(&mut dir, "query_docs", &args, ttl);

    assert!(cached.is_some(), "Should be able to cache after clearing");
    assert_eq!(cached.unwrap(), make_text_result("after clear"));
}

// --- Mixed tool cache entries ---

#[test]
fn test_clear_removes_all_tool_entries() {
    let mut dir = TempDir::new();

    let query_args = QueryDocsArguments {
        library_id: "/lib/test".to_string(),
        query: "test".to_string(),
    };
    let resolve_args = ResolveLibraryIdArguments {
        library_name: "react".to_string(),
        query: "hooks".to_string(),
    };

    cache_put(
        &mut dir,
        "query_docs",
        &query_args,
        &make_text_result("docs"),
    );
    cache_put(
        &mut dir,
        "resolve_library_id",
        &resolve_args,
        &make_text_result("libs"),
    );

    let (removed, errors) = cache_clear(&mut dir);
    assert_eq!(removed, 2);
    assert!(errors.is_empty());
}

// --- Cache file content verification ---

#[test]
fn test_cache_file_is_valid_json() {
    let mut dir = TempDir::new();
    let args = QueryDocsArguments {
        library_id: "/test/lib".to_string(),
        query: "check json".to_string(),
    };
    let result = make_structured_result("text content", "key", "value");

    cache_put(&mut dir, "query_docs", &args, &result);

    let path = cache_path(dir.path(), "query_docs", &args);
    let raw = dir.read_to_string(&path).expect("Should be able to read cache file");

    // Verify it's valid JSON
    let parsed: Value = serde_json::from_str(&raw).expect("Cache file should contain valid JSON");
    assert!(
        parsed.is_object(),
        "Cache file root should be a JSON object"
    );
}

#[test]
fn test_cache_file_contains_expected_fields() {
    let mut dir = TempDir::new();
    let args = QueryDocsArguments {
        library_id: "/test/lib".to_string(),
        query: "fields check".to_string(),
    };
    let result = make_structured_result("hello", "myKey", "myValue");

    cache_put(&mut dir, "query_docs", &args, &result);

    let path = cache_path(dir.path(), "query_docs", &args);
    let raw = dir.read_to_string(&path).unwrap();
    let parsed: Value = serde_json::from_str(&raw).unwrap();

    assert!(
        parsed.get("content").is_some(),
        "Cache file should have 'content' field"
    );
    assert!(
        parsed.get("structuredContent").is_some(),
        "Cache file should have 'structuredContent' field"
    );

    let sc = parsed.get("structuredContent").unwrap();
    assert_eq!(
        sc.get("myKey").and_then(|v| v.as_str()),
        Some("myValue"),
        "structuredContent should preserve the key/value pair"
    );
}

// --- Corrupted / malformed cache files ---

#[test]
fn test_cache_get_returns_none_for_corrupted_file() {
    let mut dir = TempDir::new();
    let args = QueryDocsArguments {
        library_id: "/test/lib".to_string(),
        query: "corrupted".to_string(),
    };
    let ttl = Ttl::from_secs(3600);

    // Write garbage to the expected cache path
    let path = cache_path(dir.path(), "query_docs", &args);
    dir.write(&path, "this is not valid json!!!");

    let cached = cache_get(&mut dir, "query_docs", &args, ttl);
    assert!(
        cached.is_none(),
        "Corrupted cache file should return None, not panic"
    );
}

#[test]
fn test_cache_get_returns_none_for_empty_file() {
    let mut dir = TempDir::new();
    let args = QueryDocsArguments {
        library_id: "/test/lib".to_string(),
        query: "empty".to_string(),
    };
    let ttl = Ttl::from_secs(3600);

    let path = cache_path(dir.path(), "query_docs", &args);
    dir.write(&path, "");

    let cached = cache_get(&mut dir, "query_docs", &args, ttl);
    assert!(cached.is_none(), "Empty cache file should return None");
}

#[test]
fn test_cache_get_returns_none_for_wrong_json_shape() {
    let mut dir = TempDir::new();
    let args = QueryDocsArguments {
        library_id: "/test/lib".to_string(),
        query: "wrong shape".to_string(),
    };
    let ttl = Ttl::from_secs(3600);

    // Valid JSON but not a CallToolResult
    let path = cache_path(dir.path(), "query_docs", &args);
    dir.write(&path, r#"{"unexpected": "structure"}"#);

    let cached = cache_get(&mut dir, "query_docs", &args, ttl);
    assert!(cached.is_none(), "JSON with wrong shape should return None");
}

// --- The steps of a get ---

fn args() -> QueryDocsArguments {
    QueryDocsArguments { library_id: "/vercel/next.js".to_string(), query: "middleware".to_string() }
}

fn stat(modified: Option<i128>, now: i128) -> Option<Stat> {
    Some(Stat { modified: modified.map(|nanos| Timestamp { nanos }), now: Timestamp { nanos: now } })
}

#[test]
fn get_asks_for_the_root_first() {
    let cache = Cache::in_dir("/cache");
    let step = cache.get::<CallToolResult, _>("query_docs", &args(), GetSeen { stat: None, read: None });
    assert!(matches!(step, GetStep::Probe));
    // Nothing the host has observed makes up for the root.
    let step = cache.get(
        "query_docs",
        &args(),
        GetSeen { stat: stat(Some(0), 0), read: Some(EntryRead::Payload(make_text_result("x"))) },
    );
    assert!(matches!(step, GetStep::Probe));
}

#[test]
fn get_asks_for_the_times_of_the_key() {
    let mut cache = Cache::in_dir("/cache");
    cache.observe_root(true);
    let step = cache.get::<CallToolResult, _>("query_docs", &args(), GetSeen { stat: None, read: None });
    match step {
        GetStep::Stat { path } => assert_eq!(path, cache_path("/cache", "query_docs", &args())),
        step => panic!("unexpected step {:?}", step),
    }
}

#[test]
fn get_misses_a_missing_entry_without_the_setting() {
    let mut cache = Cache::in_dir("/cache");
    cache.observe_root(true);
    let step =
        cache.get::<CallToolResult, _>("query_docs", &args(), GetSeen { stat: stat(None, 10), read: None });
    assert!(matches!(step, GetStep::Miss));
    let step = cache.get::<CallToolResult, _>(
        "query_docs",
        &args(),
        GetSeen { stat: stat(Some(11), 10), read: None },
    );
    assert!(matches!(step, GetStep::Miss));
    assert_eq!(cache.ttl(), None);
}

#[test]
fn get_asks_for_the_setting_when_an_entry_has_an_age() {
    let mut cache = Cache::in_dir("/cache");
    cache.observe_root(true);
    let step = cache.get::<CallToolResult, _>(
        "query_docs",
        &args(),
        GetSeen { stat: stat(Some(10), 10), read: None },
    );
    assert!(matches!(step, GetStep::Configure));
    cache.observe_setting(Some("2"));
    assert_eq!(cache.ttl(), Some(Ttl::from_days(2)));
    let step = cache.get::<CallToolResult, _>(
        "query_docs",
        &args(),
        GetSeen { stat: stat(Some(10), 10), read: None },
    );
    match step {
        GetStep::Read { path } => assert_eq!(path, cache_path("/cache", "query_docs", &args())),
        step => panic!("unexpected step {:?}", step),
    }
}

#[test]
fn get_reads_only_fresh_entries() {
    let cache = Cache::resolved("/cache", true, Ttl { nanos: 100 });
    let fresh = cache.get::<CallToolResult, _>(
        "query_docs",
        &args(),
        GetSeen { stat: stat(Some(1000), 1099), read: None },
    );
    assert!(matches!(fresh, GetStep::Read { .. }));
    let stale = cache.get::<CallToolResult, _>(
        "query_docs",
        &args(),
        GetSeen { stat: stat(Some(1000), 1100), read: None },
    );
    assert!(matches!(stale, GetStep::Miss));
    // A stale entry is a miss even where the host has read it already.
    let stale = cache.get(
        "query_docs",
        &args(),
        GetSeen {
            stat: stat(Some(1000), 1100),
            read: Some(EntryRead::Payload(make_text_result("old"))),
        },
    );
    assert!(matches!(stale, GetStep::Miss));
}

#[test]
fn get_returns_the_result_that_was_read() {
    let cache = Cache::resolved("/cache", true, Ttl { nanos: 100 });
    let result = make_structured_result("text", "key", "value");
    let step = cache.get(
        "query_docs",
        &args(),
        GetSeen { stat: stat(Some(1000), 1001), read: Some(EntryRead::Payload(result.clone())) },
    );
    match step {
        GetStep::Hit(found) => assert_eq!(found, result),
        step => panic!("unexpected step {:?}", step),
    }
}

#[test]
fn get_misses_what_cannot_be_used() {
    let cache = Cache::resolved("/cache", true, Ttl { nanos: 100 });
    let unreadable = cache.get::<CallToolResult, _>(
        "query_docs",
        &args(),
        GetSeen { stat: stat(Some(1000), 1001), read: Some(EntryRead::Unreadable) },
    );
    assert!(matches!(unreadable, GetStep::Miss));
    let malformed = cache.get::<CallToolResult, _>(
        "query_docs",
        &args(),
        GetSeen { stat: stat(Some(1000), 1001), read: Some(EntryRead::Malformed) },
    );
    assert!(matches!(malformed, GetStep::Miss));
}

#[test]
fn get_does_not_read_a_stale_entry() {
    let mut dir = TempDir::new();
    cache_put(&mut dir, "query_docs", &args(), &make_text_result("soon stale"));
    dir.sleep(100);
    assert!(cache_get(&mut dir, "query_docs", &args(), Ttl::from_millis(50)).is_none());
    assert_eq!(dir.reads, 0);
    assert!(cache_get(&mut dir, "query_docs", &args(), Ttl::from_millis(101)).is_some());
    assert_eq!(dir.reads, 1);
}

#[test]
fn entry_is_fresh_until_the_ttl_has_passed() {
    let mut dir = TempDir::new();
    cache_put(&mut dir, "query_docs", &args(), &make_text_result("r"));
    let ttl = Ttl::from_millis(50);
    dir.sleep(49);
    assert!(cache_get(&mut dir, "query_docs", &args(), ttl).is_some());
    dir.sleep(1);
    assert!(cache_get(&mut dir, "query_docs", &args(), ttl).is_none());
    // A later put makes the entry fresh again.
    cache_put(&mut dir, "query_docs", &args(), &make_text_result("r2"));
    assert_eq!(cache_get(&mut dir, "query_docs", &args(), ttl), Some(make_text_result("r2")));
}

#[test]
fn get_misses_when_the_clock_went_back() {
    let mut dir = TempDir::new();
    cache_put(&mut dir, "query_docs", &args(), &make_text_result("from the future"));
    dir.now -= 1;
    assert!(cache_get(&mut dir, "query_docs", &args(), Ttl::from_days(365)).is_none());
}

#[test]
fn error_results_are_stored_like_any_other() {
    let mut dir = TempDir::new();
    let result = CallToolResult {
        content: vec!["something went wrong".to_string()],
        is_error: Some(true),
        structured_content: None,
    };
    cache_put(&mut dir, "query_docs", &args(), &result);
    assert_eq!(cache_get(&mut dir, "query_docs", &args(), Ttl::from_secs(3600)), Some(result));
}

// --- The setting ---

#[test]
fn setting_is_read_once() {
    let mut dir = TempDir::new();
    let mut cache = Cache::in_dir(dir.path());
    cache_put(&mut dir, "query_docs", &args(), &make_text_result("r"));
    dir.sleep(36 * 60 * 60 * 1000);

    // Two days: an entry of a day and a half is fresh.
    assert!(run_get(&mut cache, &mut dir, Some("2"), "query_docs", &args()).is_some());
    assert_eq!(cache.ttl(), Some(Ttl::from_days(2)));
    // The setting has changed to one day since; the cache does not see it.
    cache.observe_setting(Some("1"));
    assert_eq!(cache.ttl(), Some(Ttl::from_days(2)));
    assert!(run_get(&mut cache, &mut dir, Some("1"), "query_docs", &args()).is_some());
}

#[test]
fn missing_or_unusable_setting_means_one_day() {
    for setting in [None, Some(""), Some("soon"), Some("-1"), Some("1.5")] {
        let mut dir = TempDir::new();
        let mut cache = Cache::in_dir(dir.path());
        cache_put(&mut dir, "query_docs", &args(), &make_text_result("r"));
        dir.sleep(24 * 60 * 60 * 1000 - 1);
        assert!(run_get(&mut cache, &mut dir, setting, "query_docs", &args()).is_some());
        assert_eq!(cache.ttl(), Some(Ttl::from_secs(86400)));
        dir.sleep(1);
        assert!(run_get(&mut cache, &mut dir, setting, "query_docs", &args()).is_none());
    }
}

// --- The root ---

#[test]
fn new_cache_knows_nothing() {
    let cache = Cache::new();
    assert_eq!(cache.root(), "/cache");
    assert_eq!(cache.is_enabled(), None);
    assert_eq!(cache.ttl(), None);
    let cache = Cache::in_dir("/tmp/test_cache");
    assert_eq!(cache.root(), "/tmp/test_cache");
    assert_eq!(cache.is_enabled(), None);
    assert_eq!(cache.ttl(), None);
    let cache = Cache::resolved("/srv", false, Ttl::from_days(3));
    assert_eq!(cache.root(), "/srv");
    assert_eq!(cache.is_enabled(), Some(false));
    assert_eq!(cache.ttl(), Some(Ttl::from_days(3)));
}

#[test]
fn missing_root_is_announced_once() {
    let mut cache = Cache::new();
    let notice = cache.observe_root(false).expect("a missing root is announced");
    assert_eq!(notice.level, context7_cache::notice::Level::Info);
    assert_eq!(notice.text, "Cache directory /cache is not mounted; caching is disabled");
    assert_eq!(cache.is_enabled(), Some(false));
    assert!(cache.observe_root(false).is_none());
    assert!(cache.observe_root(true).is_none());
    assert_eq!(cache.is_enabled(), Some(false));
}

#[test]
fn present_root_is_not_announced() {
    let mut cache = Cache::in_dir("/tmp/test_cache");
    assert!(cache.observe_root(true).is_none());
    assert_eq!(cache.is_enabled(), Some(true));
    // The root going away later changes nothing either.
    assert!(cache.observe_root(false).is_none());
    assert_eq!(cache.is_enabled(), Some(true));
}

#[test]
fn announcement_names_the_root() {
    let mut cache = Cache::in_dir("/tmp/test_cache");
    let notice = cache.observe_root(false).unwrap();
    assert_eq!(notice.text, "Cache directory /tmp/test_cache is not mounted; caching is disabled");
}

#[test]
fn disabled_cache_stays_disabled_when_the_root_appears() {
    let mut dir = TempDir::missing();
    let mut cache = Cache::in_dir(dir.path());
    let result = make_text_result("never stored");

    assert_eq!(run_put(&mut cache, &mut dir, "query_docs", &args(), Some(&result)), None);
    assert_eq!(cache.is_enabled(), Some(false));
    assert!(dir.files.is_empty());

    // The directory is created; the cache has made up its mind.
    dir.mounted = true;
    assert_eq!(run_put(&mut cache, &mut dir, "query_docs", &args(), Some(&result)), None);
    assert!(dir.files.is_empty());
    assert!(run_get(&mut cache, &mut dir, None, "query_docs", &args()).is_none());

    // Not even an entry that someone else wrote is found.
    cache_put(&mut dir, "query_docs", &args(), &result);
    assert!(run_get(&mut cache, &mut dir, None, "query_docs", &args()).is_none());
    assert_eq!(dir.reads, 0);
    assert_eq!(cache.is_enabled(), Some(false));
}

#[test]
fn disabled_cache_asks_for_nothing() {
    let cache = Cache::resolved("/cache", false, Ttl::from_days(1));
    let step = cache.get(
        "query_docs",
        &args(),
        GetSeen { stat: stat(Some(0), 0), read: Some(EntryRead::Payload(make_text_result("x"))) },
    );
    assert!(matches!(step, GetStep::Miss));
    let step = cache.put(
        "query_docs",
        &args(),
        &PutSeen { serialized: Some(Serialized::Text("{}".to_string())), written: None },
    );
    assert!(matches!(step, PutStep::Done(None)));
}

// --- The steps of a put ---

#[test]
fn put_asks_for_the_root_then_the_text_then_the_write() {
    let mut cache = Cache::in_dir("/cache");
    let mut seen = PutSeen { serialized: None, written: None };
    assert!(matches!(cache.put("query_docs", &args(), &seen), PutStep::Probe));
    cache.observe_root(true);
    assert!(matches!(cache.put("query_docs", &args(), &seen), PutStep::Serialize));
    seen.serialized = Some(Serialized::Text("{\"content\":[]}".to_string()));
    match cache.put("query_docs", &args(), &seen) {
        PutStep::Write { path, text } => {
            assert_eq!(path, cache_path("/cache", "query_docs", &args()));
            assert_eq!(text, "{\"content\":[]}");
        }
        step => panic!("unexpected step {:?}", step),
    }
    seen.written = Some(Written::Stored);
    assert!(matches!(cache.put("query_docs", &args(), &seen), PutStep::Done(None)));
}

#[test]
fn put_warns_when_the_result_cannot_be_serialized() {
    let mut dir = TempDir::new();
    let mut cache = Cache::in_dir(dir.path());
    let warning = run_put(&mut cache, &mut dir, "query_docs", &args(), None);
    assert_eq!(warning.as_deref(), Some("Failed to serialize cache entry"));
    assert!(dir.files.is_empty());

    let seen = PutSeen { serialized: Some(Serialized::Failed), written: None };
    match cache.put("query_docs", &args(), &seen) {
        PutStep::Done(Some(notice)) => {
            assert_eq!(notice.level, context7_cache::notice::Level::Warning)
        }
        step => panic!("unexpected step {:?}", step),
    }
}

#[test]
fn put_warns_when_the_write_fails() {
    let mut dir = TempDir::new();
    dir.read_only = true;
    let mut cache = Cache::in_dir(dir.path());
    let warning = run_put(&mut cache, &mut dir, "query_docs", &args(), Some(&make_text_result("r")));
    let path = cache_path(dir.path(), "query_docs", &args());
    assert_eq!(
        warning,
        Some(format!("Failed to write cache file {}: Read-only file system (os error 30)", path))
    );

    let seen = PutSeen {
        serialized: Some(Serialized::Text("{}".to_string())),
        written: Some(Written::Failed("disk full".to_string())),
    };
    match cache.put("query_docs", &args(), &seen) {
        PutStep::Done(Some(notice)) => {
            assert_eq!(notice.level, context7_cache::notice::Level::Warning);
            assert_eq!(notice.text, format!("Failed to write cache file {}: disk full", path));
        }
        step => panic!("unexpected step {:?}", step),
    }
}

#[test]
fn put_writes_the_serialized_text_unchanged() {
    let mut dir = TempDir::new();
    let result = make_structured_result("caf\u{e9} \u{1f600} \"quoted\"\n", "k", "v");
    cache_put(&mut dir, "query_docs", &args(), &result);
    let path = cache_path(dir.path(), "query_docs", &args());
    assert_eq!(dir.read_to_string(&path), Some(encode(&result)));
    assert_eq!(dir.files.len(), 1);
}

// --- The steps of a clear ---

#[test]
fn clear_of_a_disabled_cache_lists_nothing() {
    let mut dir = TempDir::missing();
    let mut cache = Cache::in_dir(dir.path());
    let result = run_clear(&mut cache, &mut dir);
    assert!(!result.is_error);
    assert_eq!(result.message, "Cache is not enabled (directory not mounted)");
    assert!(result.message.contains("not enabled"));
    assert_eq!(dir.listings, 0);
}

#[test]
fn clear_reports_the_number_of_removed_entries() {
    let mut dir = TempDir::new();
    let mut cache = Cache::in_dir(dir.path());
    let other = QueryDocsArguments { library_id: "/lib/two".to_string(), query: "q".to_string() };
    cache_put(&mut dir, "query_docs", &args(), &make_text_result("one"));
    cache_put(&mut dir, "query_docs", &other, &make_text_result("two"));
    let readme = dir.join("README.txt");
    dir.write(&readme, "do not delete me");

    let result = run_clear(&mut cache, &mut dir);
    assert!(!result.is_error);
    assert_eq!(result.message, "Cache cleared successfully (2 entries removed)");
    assert_eq!(dir.files.len(), 1);
    assert!(dir.has_file(&readme));
    assert_eq!(dir.listings, 1);
}

#[test]
fn clear_removes_two_entries_and_leaves_the_third_file() {
    let mut dir = TempDir::new();
    let other = QueryDocsArguments { library_id: "/lib/two".to_string(), query: "q".to_string() };
    cache_put(&mut dir, "query_docs", &args(), &make_text_result("one"));
    cache_put(&mut dir, "query_docs", &other, &make_text_result("two"));
    let notes = dir.join("notes.txt");
    dir.write(&notes, "keep");

    let (removed, errors) = cache_clear(&mut dir);
    assert_eq!(removed, 2);
    assert!(errors.is_empty());
    assert!(dir.has_file(&notes));
    assert_eq!(dir.read_to_string(&notes).as_deref(), Some("keep"));
    assert_eq!(dir.files.len(), 1);
}

#[test]
fn clear_of_an_empty_cache_removes_nothing() {
    let mut dir = TempDir::new();
    let mut cache = Cache::in_dir(dir.path());
    let result = run_clear(&mut cache, &mut dir);
    assert!(!result.is_error);
    assert_eq!(result.message, "Cache cleared successfully (0 entries removed)");
}

#[test]
fn clear_goes_on_after_a_failed_removal() {
    let mut dir = TempDir::new();
    let mut cache = Cache::in_dir(dir.path());
    for name in ["a.json", "b.json", "c.json", "d.json", "notes.md"] {
        let path = dir.join(name);
        dir.write(&path, "{}");
    }
    dir.undeletable = vec![dir.join("a.json"), dir.join("c.json")];

    let result = run_clear(&mut cache, &mut dir);
    assert!(result.is_error);
    assert_eq!(
        result.message,
        "Failed to remove 2 cache entries: \
         /tmp/test_cache/a.json: Permission denied (os error 13); \
         /tmp/test_cache/c.json: Permission denied (os error 13)"
    );
    let left: Vec<&str> = dir.files.iter().map(|file| file.path.as_str()).collect();
    assert_eq!(
        left,
        ["/tmp/test_cache/a.json", "/tmp/test_cache/c.json", "/tmp/test_cache/notes.md"]
    );
}

#[test]
fn clear_reports_a_root_that_cannot_be_listed() {
    let cache = Cache::resolved("/cache", true, Ttl::from_days(1));
    let seen = ClearSeen {
        listing: Some(Listing::Failed("Permission denied (os error 13)".to_string())),
        removals: None,
    };
    match cache.clear(&seen) {
        ClearStep::Done(result) => {
            assert!(result.is_error);
            assert_eq!(
                result.message,
                "Failed to read cache directory: Permission denied (os error 13)"
            );
        }
        step => panic!("unexpected step {:?}", step),
    }
}

#[test]
fn clear_asks_for_the_root_then_the_listing_then_the_removals() {
    let mut cache = Cache::in_dir("/cache");
    let mut seen = ClearSeen { listing: None, removals: None };
    assert!(matches!(cache.clear(&seen), ClearStep::Probe));
    cache.observe_root(true);
    match cache.clear(&seen) {
        ClearStep::List { root } => assert_eq!(root, "/cache"),
        step => panic!("unexpected step {:?}", step),
    }
    seen.listing = Some(Listing::Names(vec![
        "query_docs_0123456789abcdef.json".to_string(),
        "README.txt".to_string(),
        ".json".to_string(),
        "resolve_library_id_00000000000000ff.json".to_string(),
        "x.JSON".to_string(),
        "lost+found".to_string(),
        "y.json".to_string(),
    ]));
    match cache.clear(&seen) {
        ClearStep::Remove { paths } => assert_eq!(
            paths,
            [
                "/cache/query_docs_0123456789abcdef.json",
                "/cache/resolve_library_id_00000000000000ff.json",
                "/cache/y.json",
            ]
        ),
        step => panic!("unexpected step {:?}", step),
    }
    seen.removals = Some(vec![
        Removal { path: "/cache/query_docs_0123456789abcdef.json".to_string(), error: None },
        Removal {
            path: "/cache/resolve_library_id_00000000000000ff.json".to_string(),
            error: Some("busy".to_string()),
        },
        Removal { path: "/cache/y.json".to_string(), error: None },
    ]);
    match cache.clear(&seen) {
        ClearStep::Done(result) => {
            assert!(result.is_error);
            assert_eq!(
                result.message,
                "Failed to remove 1 cache entries: \
                 /cache/resolve_library_id_00000000000000ff.json: busy"
            );
        }
        step => panic!("unexpected step {:?}", step),
    }
}

#[test]
fn clear_removes_what_put_wrote() {
    let mut dir = TempDir::new();
    let mut cache = Cache::in_dir(dir.path());
    let resolve_args =
        ResolveLibraryIdArguments { library_name: "react".to_string(), query: "hooks".to_string() };
    cache_put(&mut dir, "query_docs", &args(), &make_text_result("docs"));
    cache_put(&mut dir, "resolve_library_id", &resolve_args, &make_text_result("libs"));
    cache_put(&mut dir, "", &args(), &make_text_result("nameless"));
    let result = run_clear(&mut cache, &mut dir);
    assert_eq!(result.message, "Cache cleared successfully (3 entries removed)");
    assert!(dir.files.is_empty());
}

#[test]
fn tally_counts_and_reports() {
    let removals = vec![
        Removal { path: "/cache/a.json".to_string(), error: None },
        Removal { path: "/cache/b.json".to_string(), error: Some("denied".to_string()) },
        Removal { path: "/cache/c.json".to_string(), error: None },
        Removal { path: "/cache/d.json".to_string(), error: Some("".to_string()) },
    ];
    let (removed, errors) = tally_removals(&removals);
    assert_eq!(removed, 2);
    assert_eq!(errors, ["/cache/b.json: denied", "/cache/d.json: "]);
    let (removed, errors) = tally_removals(&Vec::new());
    assert_eq!(removed, 0);
    assert!(errors.is_empty());
}

// --- The order of the steps ---

#[test]
fn get_takes_its_steps_in_order() {
    let mut dir = TempDir::new();
    cache_put(&mut dir, "query_docs", &args(), &make_text_result("r"));
    let path = cache_path(dir.path(), "query_docs", &args());

    let mut cache = Cache::in_dir(dir.path());
    let mut steps = Vec::new();
    let mut seen_stat = None;
    let mut seen_read = None;
    let found = loop {
        match cache.get("query_docs", &args(), GetSeen { stat: seen_stat, read: seen_read.take() }) {
            GetStep::Probe => {
                steps.push("probe".to_string());
                cache.observe_root(dir.mounted);
            }
            GetStep::Configure => {
                steps.push("configure".to_string());
                cache.observe_setting(Some("1"));
            }
            GetStep::Stat { path } => {
                steps.push(format!("stat {}", path));
                seen_stat = Some(dir.stat(&path));
            }
            GetStep::Read { path } => {
                steps.push(format!("read {}", path));
                seen_read = Some(match dir.read_to_string(&path).and_then(|text| decode(&text)) {
                    Some(result) => EntryRead::Payload(result),
                    None => EntryRead::Malformed,
                });
            }
            GetStep::Miss => break None,
            GetStep::Hit(result) => break Some(result),
        }
    };
    assert_eq!(found, Some(make_text_result("r")));
    assert_eq!(
        steps,
        ["probe".to_string(), format!("stat {}", path), "configure".to_string(), format!("read {}", path)]
    );

    // The second get has nothing left to learn.
    let mut steps = 0;
    let mut seen_stat = None;
    let mut seen_read = None;
    loop {
        match cache.get("query_docs", &args(), GetSeen { stat: seen_stat, read: seen_read.take() }) {
            GetStep::Probe | GetStep::Configure => panic!("the cache asks twice"),
            GetStep::Stat { path } => seen_stat = Some(dir.stat(&path)),
            GetStep::Read { path } => {
                seen_read = Some(match dir.read_to_string(&path).and_then(|text| decode(&text)) {
                    Some(result) => EntryRead::Payload(result),
                    None => EntryRead::Malformed,
                })
            }
            GetStep::Miss => panic!("the entry is fresh"),
            GetStep::Hit(_) => break,
        }
        steps += 1;
    }
    assert_eq!(steps, 2);
}

#[test]
fn get_of_a_missing_entry_stops_after_the_times() {
    let dir = TempDir::new();
    let mut cache = Cache::in_dir(dir.path());
    let mut steps = 0;
    let mut seen_stat = None;
    loop {
        match cache.get::<CallToolResult, _>("query_docs", &args(), GetSeen { stat: seen_stat, read: None }) {
            GetStep::Probe => {
                cache.observe_root(true);
            }
            GetStep::Stat { path } => seen_stat = Some(dir.stat(&path)),
            GetStep::Miss => break,
            step => panic!("unexpected step {:?}", step),
        }
        steps += 1;
    }
    assert_eq!(steps, 2);
    assert_eq!(cache.ttl(), None);
}

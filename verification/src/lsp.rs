//! Request framing and response reading for the local language-server
//! proxy.
//!
//! The proxy listens on a port it writes to a per-workspace file; the
//! embedding layer reads that file and carries the HTTP exchange.  The port
//! file's name, the request bodies and the meaning of each response are
//! decided and checked here.

use vstd::prelude::*;
use crate::digest::{hex_of_bytes, string_to_hex};
use crate::error::BridgeError;
use crate::json::{
    Json, Jv, jtext, jv_of, jv_of_kvs, jv_of_seq, jv_strings, json_clone, lemma_jv_of_seq_index,
    obj_get, spec_obj_get, to_json_string,
};
use crate::strutil::{all_digits, digits_val, join_spec, path_join, parse_u32_range};
use vstd::string::StringSliceAdditionalSpecFns;

verus! {

/// A runnable entry point reported by the language server.
#[derive(Debug)]
pub struct MainClassEntry {
    pub main_class: String,
    pub project_name: String,
    pub file_path: String,
}

/// A remote error reported by the language server: its numeric code (kept
/// in its literal spelling), its message, and any attached data.
#[derive(Debug)]
pub struct LspError {
    pub code: String,
    pub message: String,
    pub data: Json,
}

/// Why a proxy exchange yielded no value.
#[derive(Debug)]
pub enum LspFailure {
    /// The server answered with an error object.
    Remote(LspError),
    /// The response had neither a result nor a well-formed error.
    Malformed,
}

/// Client handle for one workspace's proxy.
pub struct LspClient {
    workspace: String,
}

impl LspClient {
    /// The workspace root this client speaks for.
    pub closed spec fn spec_workspace(&self) -> Seq<char> {
        self.workspace@
    }

    /// Creates a client for the given workspace root.
    pub fn new(workspace: String) -> (r: LspClient)
        ensures
            r.spec_workspace() == workspace@,
    {
        LspClient { workspace }
    }

    /// The file the proxy writes its port to: named by the hex encoding of
    /// the workspace root, under the `proxy` directory.
    pub fn port_file_path(&self) -> (r: String)
        ensures
            r@ == join_spec(
                "proxy"@,
                hex_of_bytes(self.spec_workspace_bytes()),
            ),
    {
        let hex = string_to_hex(self.workspace.as_str());
        path_join("proxy", hex.as_str())
    }

    /// UTF-8 bytes of the workspace root.
    pub open spec fn spec_workspace_bytes(&self) -> Seq<u8> {
        vstd::utf8::encode_utf8(self.spec_workspace())
    }
}

/// The proxy's local address for a given port.
pub fn proxy_url(port: u16) -> (r: String)
    ensures
        r@ == "http://localhost:"@ + crate::strutil::dec_spec(port as int),
{
    let mut out = "http://localhost:".to_owned();
    let digits = crate::strutil::u32_to_decimal(port as u32);
    out.append(digits.as_str());
    out
}

/// The body of a proxy request: a JSON object with the method and its
/// parameters.
pub open spec fn spec_request_body(method: Seq<char>, params: Jv) -> Seq<char> {
    jtext(Jv::Obj(seq![("method"@, Jv::Str(method)), ("params"@, params)]))
}

/// Builds the body of a proxy request.
pub fn request_body(method: &str, params: Json) -> (r: String)
    ensures
        r@ == spec_request_body(method@, params@),
{
    let ghost pv = params@;
    let kvs: Vec<(String, Json)> = vec![
        ("method".to_owned(), Json::Str(method.to_owned())),
        ("params".to_owned(), params),
    ];
    let body = Json::Obj(kvs);
    proof {
        crate::json::lemma_jv_of_kvs_index(kvs@);
        assert(jv_of_kvs(kvs@) =~= seq![("method"@, Jv::Str(method@)), ("params"@, pv)]);
    }
    to_json_string(&body)
}

/// The parameters of a `workspace/executeCommand` request.
pub open spec fn spec_command_params(command: Seq<char>, arguments: Jv) -> Jv {
    Jv::Obj(seq![("command"@, Jv::Str(command)), ("arguments"@, arguments)])
}

/// Builds the parameters of a `workspace/executeCommand` request.
pub fn command_params(command: &str, arguments: Json) -> (r: Json)
    ensures
        r@ == spec_command_params(command@, arguments@),
{
    let ghost av = arguments@;
    let kvs: Vec<(String, Json)> = vec![
        ("command".to_owned(), Json::Str(command.to_owned())),
        ("arguments".to_owned(), arguments),
    ];
    proof {
        crate::json::lemma_jv_of_kvs_index(kvs@);
        assert(jv_of_kvs(kvs@) =~= seq![("command"@, Jv::Str(command@)), ("arguments"@, av)]);
    }
    Json::Obj(kvs)
}

/// Turns a string list into a JSON array of strings.
pub fn strings_to_json(args: &Vec<String>) -> (r: Json)
    ensures
        r@ == Jv::Arr(jv_strings(args.deep_view())),
{
    let n = args.len();
    let mut items: Vec<Json> = Vec::new();
    let mut i: usize = 0;
    while i < n
        invariant
            n == args@.len(),
            0 <= i <= n,
            items@.len() == i,
            forall|k: int| 0 <= k < i ==> jv_of(#[trigger] items@[k]) == Jv::Str(args@[k]@),
        decreases n - i,
    {
        items.push(Json::Str(args[i].clone()));
        i = i + 1;
    }
    proof {
        lemma_jv_of_seq_index(items@);
        assert forall|k: int| 0 <= k < n implies jv_of_seq(items@)[k] == jv_strings(
            args.deep_view(),
        )[k] by {
            assert(jv_of_seq(items@)[k] == jv_of(items@[k]));
            assert(args.deep_view()[k] == args@[k]@);
        }
        assert(jv_of_seq(items@) =~= jv_strings(args.deep_view()));
    }
    Json::Arr(items)
}

/// Views of an optional-string list as JSON values: absent entries are
/// `null`.
pub open spec fn jv_opt_strings(ss: Seq<Option<Seq<char>>>) -> Seq<Jv> {
    ss.map_values(
        |s: Option<Seq<char>>|
            match s {
                Some(t) => Jv::Str(t),
                None => Jv::Null,
            },
    )
}

/// Turns an optional-string list into a JSON array of strings and nulls.
pub fn opt_strings_to_json(args: &Vec<Option<String>>) -> (r: Json)
    ensures
        r@ == Jv::Arr(jv_opt_strings(args.deep_view())),
{
    let n = args.len();
    let mut items: Vec<Json> = Vec::new();
    let mut i: usize = 0;
    while i < n
        invariant
            n == args@.len(),
            0 <= i <= n,
            items@.len() == i,
            forall|k: int|
                0 <= k < i ==> jv_of(#[trigger] items@[k]) == jv_opt_strings(args.deep_view())[k],
        decreases n - i,
    {
        proof {
            assert(args.deep_view()[i as int] == match args@[i as int] {
                Some(t) => Some(t@),
                None => None::<Seq<char>>,
            });
        }
        match &args[i] {
            Some(s) => items.push(Json::Str(s.clone())),
            None => items.push(Json::Null),
        }
        i = i + 1;
    }
    proof {
        lemma_jv_of_seq_index(items@);
        assert forall|k: int| 0 <= k < n implies jv_of_seq(items@)[k] == jv_opt_strings(
            args.deep_view(),
        )[k] by {
            assert(jv_of_seq(items@)[k] == jv_of(items@[k]));
            assert(args.deep_view()[k] == (match args@[k] {
                Some(t) => Some(t@),
                None => None::<Seq<char>>,
            }));
        }
        assert(jv_of_seq(items@) =~= jv_opt_strings(args.deep_view()));
    }
    Json::Arr(items)
}

/// The body of a main-class resolution request: a `workspace/executeCommand`
/// call of the entry-point resolution command with the given hints.
pub fn resolve_main_class_body(args: &Vec<String>) -> (r: String)
    ensures
        r@ == spec_request_body(
            "workspace/executeCommand"@,
            spec_command_params(
                "vscode.java.resolveMainClass"@,
                Jv::Arr(jv_strings(args.deep_view())),
            ),
        ),
{
    let arguments = strings_to_json(args);
    let params = command_params("vscode.java.resolveMainClass", arguments);
    request_body("workspace/executeCommand", params)
}

/// The body of a classpath resolution request: main class, project name
/// and scope, absent hints passed as `null`.
pub fn resolve_class_path_body(args: &Vec<Option<String>>) -> (r: String)
    ensures
        r@ == spec_request_body(
            "workspace/executeCommand"@,
            spec_command_params(
                "vscode.java.resolveClasspath"@,
                Jv::Arr(jv_opt_strings(args.deep_view())),
            ),
        ),
{
    let arguments = opt_strings_to_json(args);
    let params = command_params("vscode.java.resolveClasspath", arguments);
    request_body("workspace/executeCommand", params)
}

/// The body of a debug-session start request.
pub fn start_session_body() -> (r: String)
    ensures
        r@ == spec_request_body(
            "workspace/executeCommand"@,
            Jv::Obj(seq![("command"@, Jv::Str("vscode.java.startDebugSession"@))]),
        ),
{
    let kvs: Vec<(String, Json)> = vec![
        ("command".to_owned(), Json::Str("vscode.java.startDebugSession".to_owned())),
    ];
    proof {
        crate::json::lemma_jv_of_kvs_index(kvs@);
        assert(jv_of_kvs(kvs@) =~= seq![("command"@, Jv::Str("vscode.java.startDebugSession"@))]);
    }
    request_body("workspace/executeCommand", Json::Obj(kvs))
}

/// The error object of a response is well formed: a numeric code, a string
/// message, and any data.
pub open spec fn spec_error_shape(e: Jv) -> bool {
    &&& spec_obj_get(e, "code"@) matches Some(Jv::Num(_))
    &&& spec_obj_get(e, "message"@) matches Some(Jv::Str(_))
    &&& spec_obj_get(e, "data"@) is Some
}

/// Reads a proxy response: a `result` member is the value, an `error`
/// member with a numeric `code`, string `message` and `data` is a remote
/// error, and anything else is malformed.
pub fn parse_lsp_response(j: &Json) -> (r: Result<Json, LspFailure>)
    ensures
        match r {
            Ok(v) => spec_obj_get(j@, "result"@) == Some(v@),
            Err(f) => spec_obj_get(j@, "result"@) is None && match f {
                LspFailure::Remote(e) => spec_obj_get(j@, "error"@) matches Some(ev)
                    && spec_error_shape(ev) && spec_obj_get(ev, "code"@) == Some(Jv::Num(e.code@))
                    && spec_obj_get(ev, "message"@) == Some(Jv::Str(e.message@)) && spec_obj_get(
                    ev,
                    "data"@,
                ) == Some(e.data@),
                LspFailure::Malformed => match spec_obj_get(j@, "error"@) {
                    Some(ev) => !spec_error_shape(ev),
                    None => true,
                },
            },
        },
{
    if let Some(result) = obj_get(j, "result") {
        return Ok(json_clone(result));
    }
    if let Some(err) = obj_get(j, "error") {
        let code: Option<&Json> = obj_get(err, "code");
        let message: Option<&Json> = obj_get(err, "message");
        let data: Option<&Json> = obj_get(err, "data");
        if let (Some(Json::Num(c)), Some(Json::Str(m)), Some(d)) = (code, message, data) {
            return Err(
                LspFailure::Remote(
                    LspError { code: c.clone(), message: m.clone(), data: json_clone(d) },
                ),
            );
        }
        return Err(LspFailure::Malformed);
    }
    Err(LspFailure::Malformed)
}

/// Reads the TCP port a debug session answered with: a number whose
/// literal is a plain digit run valued at most 65535.
pub fn port_from_result(j: &Json) -> (r: Option<u16>)
    ensures
        match r {
            Some(v) => j@ matches Jv::Num(n) && n.len() > 0 && all_digits(n) && digits_val(n)
                == v as int,
            None => !(j@ matches Jv::Num(n) && n.len() > 0 && all_digits(n) && digits_val(n)
                <= 65535),
        },
{
    if let Json::Num(n) = j {
        let len = n.as_str().unicode_len();
        proof {
            assert(n@.subrange(0, n@.len() as int) =~= n@);
        }
        match parse_u32_range(n.as_str(), 0, len) {
            Some(v) => {
                if v <= 65535 {
                    return Some(v as u16);
                }
                return None;
            },
            None => {
                proof {
                    if all_digits(n@) && n@.len() > 0 && digits_val(n@) <= 65535 {
                        assert(digits_val(n@) <= u32::MAX);
                    }
                }
                return None;
            },
        }
    }
    None
}

/// Reads a string list out of a response value.
#[verifier::loop_isolation(false)]
pub fn string_list_from(j: &Json) -> (r: Result<Vec<String>, LspFailure>)
    ensures
        match r {
            Ok(v) => j@ matches Jv::Arr(items) && items.len() == v.deep_view().len() && forall|
                k: int,
            |
                0 <= k < items.len() ==> items[k] == Jv::Str(#[trigger] v.deep_view()[k]),
            Err(f) => f is Malformed && !(j@ matches Jv::Arr(items) && forall|k: int|
                0 <= k < items.len() ==> #[trigger] items[k] is Str),
        },
{
    if let Json::Arr(items) = j {
        proof {
            lemma_jv_of_seq_index(items@);
        }
        let n = items.len();
        let mut out: Vec<String> = Vec::new();
        let mut i: usize = 0;
        while i < n
            invariant
                n == items@.len(),
                0 <= i <= n,
                out@.len() == i,
                jv_of_seq(items@).len() == n,
                forall|k: int|
                    0 <= k < n ==> jv_of_seq(items@)[k] == jv_of(#[trigger] items@[k]),
                forall|k: int|
                    0 <= k < i ==> jv_of(#[trigger] items@[k]) == Jv::Str(out.deep_view()[k]),
            decreases n - i,
        {
            match &items[i] {
                Json::Str(s) => {
                    let ghost prev = out.deep_view();
                    out.push(s.clone());
                    proof {
                        assert(forall|k: int|
                            0 <= k < i ==> #[trigger] out.deep_view()[k] == prev[k]);
                        assert(out.deep_view()[i as int] == s@);
                    }
                },
                _ => {
                    proof {
                        assert(jv_of_seq(items@)[i as int] == jv_of(items@[i as int]));
                        assert(!(jv_of_seq(items@)[i as int] is Str));
                    }
                    return Err(LspFailure::Malformed);
                },
            }
            i = i + 1;
        }
        proof {
            assert forall|k: int| 0 <= k < n implies jv_of_seq(items@)[k] == Jv::Str(
                out.deep_view()[k],
            ) by {
                assert(jv_of_seq(items@)[k] == jv_of(items@[k]));
            }
        }
        return Ok(out);
    }
    Err(LspFailure::Malformed)
}

/// `v` is an array of strings.
pub open spec fn spec_is_string_arr(v: Jv) -> bool {
    v matches Jv::Arr(inner) && forall|t: int| 0 <= t < inner.len() ==> #[trigger] inner[t] is Str
}

/// Reads the nested string lists of a classpath-resolution response.
#[verifier::loop_isolation(false)]
pub fn string_lists_from(j: &Json) -> (r: Result<Vec<Vec<String>>, LspFailure>)
    ensures
        match r {
            Ok(v) => j@ matches Jv::Arr(items) && items.len() == v.deep_view().len() && forall|
                k: int,
            |
                0 <= k < items.len() ==> (#[trigger] items[k] matches Jv::Arr(inner)
                    && inner == jv_strings(v.deep_view()[k])),
            Err(f) => f is Malformed && !(j@ matches Jv::Arr(items) && forall|k: int|
                0 <= k < items.len() ==> spec_is_string_arr(#[trigger] items[k])),
        },
{
    if let Json::Arr(items) = j {
        proof {
            lemma_jv_of_seq_index(items@);
        }
        let n = items.len();
        let mut out: Vec<Vec<String>> = Vec::new();
        let mut i: usize = 0;
        while i < n
            invariant
                n == items@.len(),
                0 <= i <= n,
                out@.len() == i,
                jv_of_seq(items@).len() == n,
                forall|k: int|
                    0 <= k < n ==> jv_of_seq(items@)[k] == jv_of(#[trigger] items@[k]),
                forall|k: int|
                    0 <= k < i ==> (#[trigger] jv_of_seq(items@)[k] matches Jv::Arr(inner)
                        && inner == jv_strings(out.deep_view()[k])),
            decreases n - i,
        {
            proof {
                assert(jv_of_seq(items@)[i as int] == jv_of(items@[i as int]));
            }
            match string_list_from(&items[i]) {
                Ok(list) => {
                    let ghost prev = out.deep_view();
                    let ghost ldv = list.deep_view();
                    proof {
                        assert(jv_of(items@[i as int]) matches Jv::Arr(inner) && inner
                            == jv_strings(ldv)) by {
                            if let Jv::Arr(inner) = jv_of(items@[i as int]) {
                                assert(inner =~= jv_strings(ldv));
                            }
                        }
                    }
                    out.push(list);
                    proof {
                        assert(forall|k: int|
                            0 <= k < i ==> #[trigger] out.deep_view()[k] == prev[k]);
                        assert(out.deep_view()[i as int] == ldv);
                    }
                },
                Err(_) => {
                    proof {
                        assert(!spec_is_string_arr(jv_of_seq(items@)[i as int]));
                    }
                    return Err(LspFailure::Malformed);
                },
            }
            i = i + 1;
        }
        return Ok(out);
    }
    Err(LspFailure::Malformed)
}

/// `e` has the shape of an entry-point record: string `mainClass`,
/// `projectName` and `filePath` members.
pub open spec fn spec_entry_matches(e: Jv, entry: MainClassEntry) -> bool {
    &&& spec_obj_get(e, "mainClass"@) == Some(Jv::Str(entry.main_class@))
    &&& spec_obj_get(e, "projectName"@) == Some(Jv::Str(entry.project_name@))
    &&& spec_obj_get(e, "filePath"@) == Some(Jv::Str(entry.file_path@))
}

/// `e` has the shape of an entry-point record, whatever the values.
pub open spec fn spec_entry_shape(e: Jv) -> bool {
    &&& spec_obj_get(e, "mainClass"@) matches Some(Jv::Str(_))
    &&& spec_obj_get(e, "projectName"@) matches Some(Jv::Str(_))
    &&& spec_obj_get(e, "filePath"@) matches Some(Jv::Str(_))
}

/// Reads the entry-point records of a main-class-resolution response.
#[verifier::loop_isolation(false)]
pub fn main_class_entries_from(j: &Json) -> (r: Result<Vec<MainClassEntry>, LspFailure>)
    ensures
        match r {
            Ok(v) => j@ matches Jv::Arr(items) && items.len() == v@.len() && forall|k: int|
                0 <= k < items.len() ==> spec_entry_matches(items[k], #[trigger] v@[k]),
            Err(f) => f is Malformed && (j@ matches Jv::Arr(items) ==> exists|k: int|
                0 <= k < items.len() && !spec_entry_shape(#[trigger] items[k])),
        },
{
    if let Json::Arr(items) = j {
        proof {
            lemma_jv_of_seq_index(items@);
        }
        let n = items.len();
        let mut out: Vec<MainClassEntry> = Vec::new();
        let mut i: usize = 0;
        while i < n
            invariant
                n == items@.len(),
                0 <= i <= n,
                out@.len() == i,
                jv_of_seq(items@).len() == n,
                forall|k: int|
                    0 <= k < n ==> jv_of_seq(items@)[k] == jv_of(#[trigger] items@[k]),
                forall|k: int|
                    0 <= k < i ==> spec_entry_matches(jv_of_seq(items@)[k], #[trigger] out@[k]),
            decreases n - i,
        {
            let mc: Option<&Json> = obj_get(&items[i], "mainClass");
            let pn: Option<&Json> = obj_get(&items[i], "projectName");
            let fp: Option<&Json> = obj_get(&items[i], "filePath");
            proof {
                assert(jv_of_seq(items@)[i as int] == jv_of(items@[i as int]));
            }
            let ms: Option<&String> = match mc {
                Some(Json::Str(m)) => Some(m),
                _ => None,
            };
            let ps: Option<&String> = match pn {
                Some(Json::Str(p)) => Some(p),
                _ => None,
            };
            let fs: Option<&String> = match fp {
                Some(Json::Str(f)) => Some(f),
                _ => None,
            };
            if let (Some(m), Some(p), Some(f)) = (ms, ps, fs) {
                out.push(
                    MainClassEntry {
                        main_class: m.clone(),
                        project_name: p.clone(),
                        file_path: f.clone(),
                    },
                );
            } else {
                proof {
                    assert(!spec_entry_shape(jv_of_seq(items@)[i as int]));
                    assert(j@ == Jv::Arr(jv_of_seq(items@)));
                    if let Jv::Arr(itemsv) = j@ {
                        assert(itemsv == jv_of_seq(items@));
                        assert(!spec_entry_shape(itemsv[i as int]));
                        assert(exists|k: int|
                            0 <= k < itemsv.len() && !spec_entry_shape(#[trigger] itemsv[k]));
                    }
                }
                return Err(LspFailure::Malformed);
            }
            i = i + 1;
        }
        return Ok(out);
    }
    Err(LspFailure::Malformed)
}

} // verus!

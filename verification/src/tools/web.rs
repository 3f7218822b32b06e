//! The web tools: searching through the search service, and fetching a page through the fetch
//! service or directly. The requests themselves are made by the caller; these are the rules
//! around them and the results they give.
use vstd::prelude::*;

use crate::config::{MoonshotFetchConfig, MoonshotSearchConfig};
use crate::text::{decimal_int, has_prefix, owned, push_str, str_chars, to_ascii_lower};
use crate::tools::html::JsonValue;
use crate::tools::utils::{
    lines_keep_from, truncation_marker, with_period, with_truncation_note, write_from, BuilderState,
    ToolResultBuilder, DEFAULT_MAX_CHARS,
};
use crate::tools::{blocks_view, brief_blocks, error_view, output_text, ret_view, tool_error, SkipThisTool, ToolReturnValue};

verus! {

/// The arguments of the search tool.
pub struct SearchParams {
    pub query: String,
    pub limit: i64,
    pub include_content: bool,
}

/// How many results a search returns unless told.
pub fn default_search_limit() -> (r: i64)
    ensures
        r == 5,
{
    5
}

/// One result of a search.
pub struct SearchResult {
    pub title: String,
    pub url: String,
    pub snippet: String,
    pub content: String,
    pub date: String,
}

/// The search tool: its description and the service it asks.
pub struct SearchWeb {
    pub description: String,
    pub base_url: String,
    pub api_key: String,
    pub custom_headers: Vec<(String, String)>,
}

fn copy_pairs(v: &Vec<(String, String)>) -> (r: Vec<(String, String)>)
    ensures
        r@.map_values(|p: (String, String)| (p.0@, p.1@)) == v@.map_values(|p: (String, String)| (p.0@, p.1@)),
{
    let mut out: Vec<(String, String)> = Vec::new();
    let mut i: usize = 0;
    while i < v.len()
        invariant
            i <= v@.len(),
            out@.map_values(|p: (String, String)| (p.0@, p.1@)) == v@.map_values(|p: (String, String)| (p.0@, p.1@)).take(
                i as int,
            ),
        decreases v@.len() - i,
    {
        let ghost o0 = out@;
        out.push((v[i].0.clone(), v[i].1.clone()));
        assert(out@.map_values(|p: (String, String)| (p.0@, p.1@)) =~= o0.map_values(|p: (String, String)| (p.0@, p.1@)).push(
            (v@[i as int].0@, v@[i as int].1@),
        ));
        assert(v@.map_values(|p: (String, String)| (p.0@, p.1@)).take(i + 1) =~= v@.map_values(
            |p: (String, String)| (p.0@, p.1@),
        ).take(i as int).push((v@[i as int].0@, v@[i as int].1@)));
        i = i + 1;
    }
    assert(v@.map_values(|p: (String, String)| (p.0@, p.1@)).take(v@.len() as int) =~= v@.map_values(
        |p: (String, String)| (p.0@, p.1@),
    ));
    out
}

impl SearchWeb {
    /// The tool when the search service is configured; it is left out otherwise.
    pub fn new(service: &Option<MoonshotSearchConfig>, description: &str) -> (r: Result<SearchWeb, SkipThisTool>)
        ensures
            match service {
                None => r is Err,
                Some(s) => r matches Ok(t) && t.description@ == description@ && t.base_url@ == s.base_url@
                    && t.api_key@ == s.api_key@ && t.custom_headers@.map_values(|p: (String, String)| (p.0@, p.1@))
                    == match s.custom_headers {
                    Some(h) => h@.map_values(|p: (String, String)| (p.0@, p.1@)),
                    None => Seq::empty(),
                },
            },
    {
        match service {
            None => Err(SkipThisTool),
            Some(s) => {
                let custom_headers = match &s.custom_headers {
                    Some(h) => copy_pairs(h),
                    None => {
                        let v: Vec<(String, String)> = Vec::new();
                        assert(v@.map_values(|p: (String, String)| (p.0@, p.1@)) =~= Seq::<(Seq<char>, Seq<char>)>::empty());
                        v
                    },
                };
                Ok(
                    SearchWeb {
                        description: owned(description),
                        base_url: s.base_url.clone(),
                        api_key: s.api_key.clone(),
                        custom_headers,
                    },
                )
            },
        }
    }

    /// The refusal of a search that cannot be made: the service has no address or key, or the
    /// call has no tool call to name in the request.
    pub fn unavailable(&self, builder: &ToolResultBuilder, has_tool_call: bool) -> (r: Option<ToolReturnValue>)
        ensures
            r matches Some(v) ==> v.extras is None,
            self.base_url@.len() == 0 || self.api_key@.len() == 0 ==> (r matches Some(v) && v.is_error && v.message@
                == with_truncation_note(
                "Search service is not configured. You may want to try other methods to search."@,
                builder.truncated(),
            ) && blocks_view(v.display@) == brief_blocks("Search service not configured"@) + builder.display_view()),
            self.base_url@.len() > 0 && self.api_key@.len() > 0 && !has_tool_call ==> (r matches Some(v) && v.is_error
                && v.message@ == with_truncation_note(
                "Search service is not available without tool call context."@,
                builder.truncated(),
            ) && blocks_view(v.display@) == brief_blocks("Search unavailable"@) + builder.display_view()),
            self.base_url@.len() > 0 && self.api_key@.len() > 0 && has_tool_call ==> r is None,
    {
        if self.base_url.as_str().is_empty() || self.api_key.as_str().is_empty() {
            return Some(
                builder.error(
                    "Search service is not configured. You may want to try other methods to search.",
                    "Search service not configured",
                ),
            );
        }
        if !has_tool_call {
            return Some(builder.error("Search service is not available without tool call context.", "Search unavailable"));
        }
        None
    }
}

/// A request to the search service: where it goes, its headers in the order they are set (a
/// later one replaces an earlier one of the same name), and its JSON body.
pub struct SearchRequest {
    pub url: String,
    pub headers: Vec<(String, String)>,
    pub body: JsonValue,
}

/// The views of name and value pairs.
pub open spec fn header_pairs(v: Seq<(String, String)>) -> Seq<(Seq<char>, Seq<char>)> {
    v.map_values(|p: (String, String)| (p.0@, p.1@))
}

/// The headers of a search: the program's user agent, the service key as a bearer token, the
/// id of the tool call, then the service's own headers.
pub open spec fn search_headers(api_key: Seq<char>, tool_call_id: Seq<char>, version: Seq<char>, custom: Seq<(Seq<char>, Seq<char>)>) -> Seq<(Seq<char>, Seq<char>)> {
    seq![
        ("User-Agent"@, "KimiCLI/"@ + version),
        ("Authorization"@, "Bearer "@ + api_key),
        ("X-Msh-Tool-Call-Id"@, tool_call_id),
    ] + custom
}

/// The body of a search: the query, the number of results, whether pages are crawled for
/// their content, and a timeout of 30 seconds.
pub open spec fn is_search_body(body: JsonValue, p: SearchParams) -> bool {
    &&& body matches JsonValue::Object(es)
    &&& es@.len() == 4
    &&& es@[0].0@ == "text_query"@ && (es@[0].1 matches JsonValue::Str(q) && q@ == p.query@)
    &&& es@[1].0@ == "limit"@ && (es@[1].1 matches JsonValue::Number(n) && n@ == decimal_int(p.limit as int))
    &&& es@[2].0@ == "enable_page_crawling"@ && es@[2].1 == JsonValue::Bool(p.include_content)
    &&& es@[3].0@ == "timeout_seconds"@ && (es@[3].1 matches JsonValue::Number(n) && n@ == "30"@)
}

impl SearchWeb {
    /// The request a search sends to the service, for the tool call that asks for it and the
    /// program's version.
    pub fn request(&self, params: &SearchParams, tool_call_id: &str, version: &str) -> (r: SearchRequest)
        ensures
            r.url@ == self.base_url@,
            header_pairs(r.headers@) == search_headers(self.api_key@, tool_call_id@, version@, header_pairs(self.custom_headers@)),
            is_search_body(r.body, *params),
    {
        let mut headers: Vec<(String, String)> = Vec::new();
        headers.push((owned("User-Agent"), crate::constant::user_agent(version)));
        let mut bearer = owned("Bearer ");
        push_str(&mut bearer, self.api_key.as_str());
        headers.push((owned("Authorization"), bearer));
        headers.push((owned("X-Msh-Tool-Call-Id"), owned(tool_call_id)));
        let ghost fixed = header_pairs(headers@);
        let custom = copy_pairs(&self.custom_headers);
        let mut i: usize = 0;
        while i < custom.len()
            invariant
                i <= custom@.len(),
                header_pairs(custom@) == header_pairs(self.custom_headers@),
                header_pairs(headers@) == fixed + header_pairs(custom@).take(i as int),
            decreases custom@.len() - i,
        {
            let ghost h0 = headers@;
            headers.push((custom[i].0.clone(), custom[i].1.clone()));
            assert(header_pairs(headers@) =~= header_pairs(h0).push((custom@[i as int].0@, custom@[i as int].1@)));
            assert(header_pairs(custom@).take(i + 1) =~= header_pairs(custom@).take(i as int).push(
                (custom@[i as int].0@, custom@[i as int].1@),
            ));
            i = i + 1;
        }
        proof {
            assert(header_pairs(custom@).take(custom@.len() as int) =~= header_pairs(custom@));
            reveal_strlit("User-Agent");
            reveal_strlit("Authorization");
            reveal_strlit("X-Msh-Tool-Call-Id");
            assert(fixed =~= seq![
                ("User-Agent"@, "KimiCLI/"@ + version@),
                ("Authorization"@, "Bearer "@ + self.api_key@),
                ("X-Msh-Tool-Call-Id"@, tool_call_id@),
            ]);
        }
        let mut entries: Vec<(String, JsonValue)> = Vec::new();
        entries.push((owned("text_query"), JsonValue::Str(params.query.clone())));
        entries.push((owned("limit"), JsonValue::Number(crate::text::format_i64(params.limit))));
        entries.push((owned("enable_page_crawling"), JsonValue::Bool(params.include_content)));
        entries.push((owned("timeout_seconds"), JsonValue::Number(owned("30"))));
        SearchRequest { url: self.base_url.clone(), headers, body: JsonValue::Object(entries) }
    }
}

/// The text a search's results are written as: for each, its title, date, URL and summary,
/// then its content when it has any; results are separated by `---` lines.
pub open spec fn results_text(rs: Seq<SearchResult>) -> Seq<char>
    decreases rs.len(),
{
    if rs.len() == 0 {
        Seq::empty()
    } else {
        let r = rs.last();
        results_text(rs.drop_last()) + (if rs.len() > 1 {
            "---\n\n"@
        } else {
            Seq::empty()
        }) + "Title: "@ + r.title@ + "\nDate: "@ + r.date@ + "\nURL: "@ + r.url@ + "\nSummary: "@ + r.snippet@ + "\n\n"@
            + if r.content@.len() > 0 {
            r.content@ + "\n\n"@
        } else {
            Seq::empty()
        }
    }
}

/// Writes search results as text.
pub fn format_results(results: &Vec<SearchResult>) -> (r: String)
    ensures
        r@ == results_text(results@),
{
    let mut s = String::new();
    let mut i: usize = 0;
    while i < results.len()
        invariant
            i <= results@.len(),
            s@ == results_text(results@.take(i as int)),
        decreases results@.len() - i,
    {
        assert(results@.take(i + 1).drop_last() =~= results@.take(i as int));
        let r = &results[i];
        if i > 0 {
            push_str(&mut s, "---\n\n");
        }
        push_str(&mut s, "Title: ");
        push_str(&mut s, r.title.as_str());
        push_str(&mut s, "\nDate: ");
        push_str(&mut s, r.date.as_str());
        push_str(&mut s, "\nURL: ");
        push_str(&mut s, r.url.as_str());
        push_str(&mut s, "\nSummary: ");
        push_str(&mut s, r.snippet.as_str());
        push_str(&mut s, "\n\n");
        if !r.content.as_str().is_empty() {
            push_str(&mut s, r.content.as_str());
            push_str(&mut s, "\n\n");
        }
        i = i + 1;
    }
    assert(results@.take(results@.len() as int) =~= results@);
    s
}

/// The state of a builder without a line limit after writing text.
pub open spec fn written_unlimited(text: Seq<char>) -> Option<BuilderState> {
    write_from(
        BuilderState { pieces: Seq::empty(), n_chars: 0, n_lines: 0, truncation: false, written: 0 },
        lines_keep_from(text, 0, 0),
        0,
        DEFAULT_MAX_CHARS as nat,
        None,
        truncation_marker(),
    )
}

/// The result of a search: its results written as text, as far as the builder takes them.
pub fn search_result(results: &Vec<SearchResult>) -> (r: ToolReturnValue)
    requires
        written_unlimited(results_text(results@)) is Some,
    ensures
        r.extras is None,
        !r.is_error,
        blocks_view(r.display@) == brief_blocks(""@),
        ({
            let st = written_unlimited(results_text(results@))->0;
            &&& output_text(r.output) == Some(crate::text::join_seqs(st.pieces, Seq::empty()))
            &&& r.message@ == with_truncation_note(""@, st.truncation)
        }),
{
    let text = format_results(results);
    let mut builder = ToolResultBuilder::new(DEFAULT_MAX_CHARS, None);
    proof {
        reveal_strlit("");
        assert(builder.pieces() =~= Seq::<Seq<char>>::empty());
    }
    builder.write(text.as_str());
    let r = builder.ok("", "");
    assert(with_period(""@) =~= ""@);
    r
}

/// How a request to a web service failed.
pub enum RequestFailure {
    /// The request did not go through; the error says why.
    Network(String),
    /// The service answered with a status other than success; its text.
    Status(String),
    /// The answer could not be read; the error says why.
    Parse(String),
}

/// The message and summary for a failed search.
pub open spec fn search_failure_texts(f: RequestFailure) -> (Seq<char>, Seq<char>) {
    match f {
        RequestFailure::Network(e) => (
            "Failed to search. Error: "@ + e@ + ". This may indicates that the search service is currently unavailable."@,
            "Failed to search"@,
        ),
        RequestFailure::Status(st) => (
            "Failed to search. Status: "@ + st@ + ". This may indicates that the search service is currently unavailable."@,
            "Failed to search"@,
        ),
        RequestFailure::Parse(e) => (
            "Failed to parse search results. Error: "@ + e@
                + ". This may indicates that the search service is currently unavailable."@,
            "Failed to parse search results"@,
        ),
    }
}

/// The result of a search that failed.
pub fn search_failure(builder: &ToolResultBuilder, failure: &RequestFailure) -> (r: ToolReturnValue)
    ensures
        r.extras is None,
        r.is_error,
        r.message@ == with_truncation_note(search_failure_texts(*failure).0, builder.truncated()),
        blocks_view(r.display@) == brief_blocks(search_failure_texts(*failure).1) + builder.display_view(),
{
    match failure {
        RequestFailure::Network(e) => {
            let mut m = owned("Failed to search. Error: ");
            push_str(&mut m, e.as_str());
            push_str(&mut m, ". This may indicates that the search service is currently unavailable.");
            builder.error(m.as_str(), "Failed to search")
        },
        RequestFailure::Status(st) => {
            let mut m = owned("Failed to search. Status: ");
            push_str(&mut m, st.as_str());
            push_str(&mut m, ". This may indicates that the search service is currently unavailable.");
            builder.error(m.as_str(), "Failed to search")
        },
        RequestFailure::Parse(e) => {
            let mut m = owned("Failed to parse search results. Error: ");
            push_str(&mut m, e.as_str());
            push_str(&mut m, ". This may indicates that the search service is currently unavailable.");
            builder.error(m.as_str(), "Failed to parse search results")
        },
    }
}

/// The arguments of the fetch tool.
pub struct FetchParams {
    pub url: String,
}

/// The fetch tool: its description and the fetch service, if one is configured.
pub struct FetchURL {
    pub description: String,
    pub service: Option<MoonshotFetchConfig>,
}

impl FetchURL {
    /// The tool with its description and the configured service.
    pub fn new(description: &str, service: Option<MoonshotFetchConfig>) -> (r: FetchURL)
        ensures
            r.description@ == description@,
            r.service == service,
    {
        FetchURL { description: owned(description), service }
    }
}

/// The message and summary for a fetch through the service that failed.
pub open spec fn service_failure_texts(f: RequestFailure) -> (Seq<char>, Seq<char>) {
    match f {
        RequestFailure::Network(e) => (
            "Failed to fetch URL via service due to network error: "@ + e@ + ". This may indicate the service is unreachable."@,
            "Network error when calling fetch service"@,
        ),
        RequestFailure::Status(st) => (
            "Failed to fetch URL via service. Status: "@ + st@ + "."@,
            "Failed to fetch URL via fetch service"@,
        ),
        RequestFailure::Parse(e) => (
            "Failed to fetch URL via service due to network error: "@ + e@ + ". This may indicate the service is unreachable."@,
            "Network error when calling fetch service"@,
        ),
    }
}

/// The result of a fetch through the service that failed.
pub fn service_failure(failure: &RequestFailure) -> (r: ToolReturnValue)
    ensures
        ret_view(r) == error_view(""@, service_failure_texts(*failure).0, service_failure_texts(*failure).1),
{
    match failure {
        RequestFailure::Status(st) => {
            let mut m = owned("Failed to fetch URL via service. Status: ");
            push_str(&mut m, st.as_str());
            push_str(&mut m, ".");
            tool_error("", m.as_str(), "Failed to fetch URL via fetch service")
        },
        RequestFailure::Network(e) | RequestFailure::Parse(e) => {
            let mut m = owned("Failed to fetch URL via service due to network error: ");
            push_str(&mut m, e.as_str());
            push_str(&mut m, ". This may indicate the service is unreachable.");
            tool_error("", m.as_str(), "Network error when calling fetch service")
        },
    }
}

/// The refusal of a fetch through the service that cannot be made: none is configured, or the
/// call has no tool call to name in the request.
pub fn service_unavailable(has_service: bool, has_tool_call: bool) -> (r: Option<ToolReturnValue>)
    ensures
        !has_service ==> (r matches Some(v) && ret_view(v) == error_view(
            ""@,
            "Fetch service is not configured."@,
            "Fetch service not configured"@,
        )),
        has_service && !has_tool_call ==> (r matches Some(v) && ret_view(v) == error_view(
            ""@,
            "Fetch service is not available without tool call context."@,
            "Fetch unavailable"@,
        )),
        has_service && has_tool_call ==> r is None,
{
    if !has_service {
        return Some(tool_error("", "Fetch service is not configured.", "Fetch service not configured"));
    }
    if !has_tool_call {
        return Some(tool_error("", "Fetch service is not available without tool call context.", "Fetch unavailable"));
    }
    None
}

/// The result of a fetch through the service: the text it gave, as far as the builder takes it.
pub fn service_result(text: &str) -> (r: ToolReturnValue)
    requires
        written_unlimited(text@) is Some,
    ensures
        r.extras is None,
        !r.is_error,
        blocks_view(r.display@) == brief_blocks(""@),
        ({
            let st = written_unlimited(text@)->0;
            &&& output_text(r.output) == Some(crate::text::join_seqs(st.pieces, Seq::empty()))
            &&& r.message@ == with_truncation_note(
                "The returned content is the main content extracted from the page."@,
                st.truncation,
            )
        }),
{
    let mut builder = ToolResultBuilder::new(DEFAULT_MAX_CHARS, None);
    proof {
        assert(builder.pieces() =~= Seq::<Seq<char>>::empty());
    }
    builder.write(text);
    proof {
        reveal_strlit("The returned content is the main content extracted from the page");
        reveal_strlit("The returned content is the main content extracted from the page.");
        assert(with_period("The returned content is the main content extracted from the page"@) =~= "The returned content is the main content extracted from the page."@);
    }
    builder.ok("The returned content is the main content extracted from the page", "")
}

/// How a direct fetch is read, by the type of what came back: plain text and Markdown as they
/// are, anything else as HTML.
pub open spec fn is_plain_content(content_type: Seq<char>) -> bool {
    let t = crate::text::ascii_lower_seq(content_type);
    has_prefix(t, "text/plain"@) || has_prefix(t, "text/markdown"@)
}

/// Whether a content type is read as it is.
pub fn plain_content(content_type: &str) -> (r: bool)
    ensures
        r == is_plain_content(content_type@),
{
    let cs = str_chars(content_type);
    let mut lower: Vec<char> = Vec::new();
    let mut i: usize = 0;
    while i < cs.len()
        invariant
            i <= cs@.len(),
            lower@ == crate::text::ascii_lower_seq(cs@.take(i as int)),
        decreases cs@.len() - i,
    {
        lower.push(to_ascii_lower(cs[i]));
        assert(crate::text::ascii_lower_seq(cs@.take(i + 1)) =~= crate::text::ascii_lower_seq(cs@.take(i as int)).push(
            crate::text::ascii_lower(cs@[i as int]),
        ));
        i = i + 1;
    }
    assert(cs@.take(cs@.len() as int) =~= cs@);
    crate::text::starts_with_str(lower.as_slice(), "text/plain") || crate::text::starts_with_str(
        lower.as_slice(),
        "text/markdown",
    )
}

/// The message and summary for a direct fetch that failed: on the network, or with a status
/// of 400 or more.
pub open spec fn http_failure_texts(f: RequestFailure) -> (Seq<char>, Seq<char>) {
    match f {
        RequestFailure::Status(st) => (
            "Failed to fetch URL. Status: "@ + st@
                + ". This may indicate the page is not accessible or the server is down."@,
            "HTTP "@ + st@ + " error"@,
        ),
        RequestFailure::Network(e) | RequestFailure::Parse(e) => (
            "Failed to fetch URL due to network error: "@ + e@
                + ". This may indicate the URL is invalid or the server is unreachable."@,
            "Network error"@,
        ),
    }
}

/// The result of a direct fetch that failed.
pub fn http_failure(builder: &ToolResultBuilder, failure: &RequestFailure) -> (r: ToolReturnValue)
    ensures
        r.extras is None,
        r.is_error,
        r.message@ == with_truncation_note(http_failure_texts(*failure).0, builder.truncated()),
        blocks_view(r.display@) == brief_blocks(http_failure_texts(*failure).1) + builder.display_view(),
{
    match failure {
        RequestFailure::Status(st) => {
            let mut m = owned("Failed to fetch URL. Status: ");
            push_str(&mut m, st.as_str());
            push_str(&mut m, ". This may indicate the page is not accessible or the server is down.");
            let mut b = owned("HTTP ");
            push_str(&mut b, st.as_str());
            push_str(&mut b, " error");
            builder.error(m.as_str(), b.as_str())
        },
        RequestFailure::Network(e) | RequestFailure::Parse(e) => {
            let mut m = owned("Failed to fetch URL due to network error: ");
            push_str(&mut m, e.as_str());
            push_str(&mut m, ". This may indicate the URL is invalid or the server is unreachable.");
            builder.error(m.as_str(), "Network error")
        },
    }
}

/// Whether a status means the page could not be had.
pub fn is_http_error(status: u16) -> (r: bool)
    ensures
        r == (status >= 400),
{
    status >= 400
}

fn written_result(text: &str, message: &str) -> (r: Option<ToolReturnValue>)
    ensures
        r matches Some(v) ==> v.extras is None,
        written_unlimited(text@) is None ==> r is None,
        written_unlimited(text@) matches Some(st) ==> (r matches Some(v) && !v.is_error && output_text(v.output) == Some(
            crate::text::join_seqs(st.pieces, Seq::empty()),
        ) && v.message@ == with_truncation_note(with_period(message@), st.truncation) && blocks_view(v.display@)
            == brief_blocks(""@)),
{
    let mut builder = ToolResultBuilder::new(DEFAULT_MAX_CHARS, None);
    proof {
        assert(builder.pieces() =~= Seq::<Seq<char>>::empty());
        reveal_strlit("");
    }
    if !builder.can_write(text) {
        return None;
    }
    builder.write(text);
    Some(builder.ok(message, ""))
}

/// The text a fetched page gives: its front matter, when there is any, above its main content.
pub open spec fn page_text(meta: crate::tools::html::ExtractedMetadata, content: Seq<char>) -> Seq<char> {
    if crate::tools::html::frontmatter_text(meta).len() == 0 {
        content
    } else {
        crate::tools::html::frontmatter_text(meta) + "\n"@ + content
    }
}

/// The result of a direct fetch that came back: plain text and Markdown as they are; an empty
/// body said to be so; an HTML page's main content with its front matter, or the error that
/// none could be extracted. `None` where the page's date or the output would be cut inside a
/// character.
pub fn fetched_page_result(content_type: &str, text: &str, url: &str, jsonld: &Vec<crate::tools::html::JsonValue>) -> (r: Option<ToolReturnValue>)
    ensures
        r matches Some(v) ==> v.extras is None,
        is_plain_content(content_type@) ==> match written_unlimited(text@) {
            None => r is None,
            Some(st) => r matches Some(v) && !v.is_error && output_text(v.output) == Some(
                crate::text::join_seqs(st.pieces, Seq::empty()),
            ) && v.message@ == with_truncation_note(
                "The returned content is the full content of the page."@,
                st.truncation,
            ),
        },
        !is_plain_content(content_type@) && text@.len() == 0 ==> (r matches Some(v) && !v.is_error && output_text(
            v.output,
        ) == Some(Seq::<char>::empty()) && v.message@ == "The response body is empty."@ && blocks_view(v.display@)
            == brief_blocks("Empty response body"@)),
        (!is_plain_content(content_type@) && text@.len() > 0) ==> {
            let content = crate::text::trim(crate::tools::html::markdown_of(crate::tools::html::content_html_of(text@)));
            let date_ok = crate::tools::html::date_candidate(crate::tools::html::meta_elements_of(text@), jsonld@) matches Some(d)
                ==> crate::tools::html::date_cuts(d);
            &&& !date_ok ==> r is None
            &&& date_ok && content.len() == 0 ==> (r matches Some(v) && v.is_error && v.message@
                == crate::tools::html::no_content_message() && blocks_view(v.display@) == brief_blocks("No content extracted"@))
            &&& date_ok && content.len() > 0 ==> exists|meta: crate::tools::html::ExtractedMetadata| {
                &&& crate::tools::html::metadata_ok(
                    meta,
                    crate::tools::html::meta_elements_of(text@),
                    crate::tools::html::first_text_of(text@, "title"@),
                    jsonld@,
                    url@,
                )
                &&& match written_unlimited(page_text(meta, content)) {
                    None => r is None,
                    Some(st) => r matches Some(v) && !v.is_error && output_text(v.output) == Some(
                        crate::text::join_seqs(st.pieces, Seq::empty()),
                    ) && v.message@ == with_truncation_note(
                        "The returned content is the main text content extracted from the page."@,
                        st.truncation,
                    ) && blocks_view(v.display@) == brief_blocks(""@),
                }
            }
        },
{
    if plain_content(content_type) {
        proof {
            reveal_strlit("The returned content is the full content of the page");
            reveal_strlit("The returned content is the full content of the page.");
            assert(with_period("The returned content is the full content of the page"@) =~= "The returned content is the full content of the page."@);
        }
        return written_result(text, "The returned content is the full content of the page");
    }
    if text.is_empty() {
        let builder = ToolResultBuilder::new(DEFAULT_MAX_CHARS, None);
        proof {
            assert(builder.pieces() =~= Seq::<Seq<char>>::empty());
            assert(crate::text::join_seqs(Seq::<Seq<char>>::empty(), Seq::empty()) =~= Seq::<char>::empty());
            reveal_strlit("The response body is empty.");
        }
        return Some(builder.ok("The response body is empty.", "Empty response body"));
    }
    match crate::tools::html::try_extract_html_content(text, url, jsonld) {
        None => None,
        Some(Ok((content, meta))) => {
            proof {
                assert(content@ == page_text(meta@, crate::text::trim(crate::tools::html::markdown_of(crate::tools::html::content_html_of(text@)))));
                reveal_strlit("The returned content is the main text content extracted from the page");
                reveal_strlit("The returned content is the main text content extracted from the page.");
                assert(with_period("The returned content is the main text content extracted from the page"@) =~= "The returned content is the main text content extracted from the page."@);
            }
            written_result(content.as_str(), "The returned content is the main text content extracted from the page")
        },
        Some(Err(message)) => {
            let builder = ToolResultBuilder::new(DEFAULT_MAX_CHARS, None);
            proof {
                reveal_strlit("");
                assert(brief_blocks("No content extracted"@) + builder.display_view() =~= brief_blocks("No content extracted"@));
            }
            Some(builder.error(message.as_str(), "No content extracted"))
        },
    }
}

} // verus!

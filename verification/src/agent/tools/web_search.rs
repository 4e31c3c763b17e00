//! Web search tool: which provider a search goes to, the requests it builds,
//! what it keeps of each provider's results and how the results read. The
//! HTTP requests and decoding the providers' JSON are left to the caller.

use vstd::prelude::*;

use crate::agent::tools::ToolError;
use crate::security::network::NetworkError;
use crate::pattern::{
    decode_html_entities, regex_replace_all, spec_decode_html_entities, spec_regex_replace_all,
    spec_regex_valid,
};
use crate::text::{
    chars_of, join_chars, parse_usize, push_decimal, push_str, slice_chars, spec_decimal, spec_join,
    spec_parse_usize, spec_to_lowercase, spec_trim, spec_trim_end_char, str_eq, string_of,
    to_lowercase, trim_chars, trim_end_char,
};

verus! {

/// Search configuration.
#[derive(Debug, Clone)]
pub struct WebSearchConfig {
    pub provider: String,
    pub api_key: String,
    pub base_url: String,
    pub max_results: usize,
}

impl WebSearchConfig {
    /// The configuration from the given settings, each `None` when unset:
    /// the provider (`duckduckgo` by default), the API key and the base URL
    /// (empty by default), and the number of results, read as a decimal
    /// `usize` (5 when unset or unreadable).
    pub fn from_settings(
        provider: Option<String>,
        api_key: Option<String>,
        base_url: Option<String>,
        max_results: Option<String>,
    ) -> (res: Self)
        ensures
            res.provider@ == match provider {
                Some(p) => p@,
                None => "duckduckgo"@,
            },
            res.api_key@ == match api_key {
                Some(k) => k@,
                None => Seq::<char>::empty(),
            },
            res.base_url@ == match base_url {
                Some(b) => b@,
                None => Seq::<char>::empty(),
            },
            res.max_results as nat == match max_results {
                Some(m) => match spec_parse_usize(m@) {
                    Some(v) => v,
                    None => 5,
                },
                None => 5,
            },
    {
        let max_results: usize = match max_results {
            Some(m) => match parse_usize(m.as_str()) {
                Some(v) => v,
                None => 5,
            },
            None => 5,
        };
        WebSearchConfig {
            provider: match provider {
                Some(p) => p,
                None => String::from_str("duckduckgo"),
            },
            api_key: match api_key {
                Some(k) => k,
                None => String::new(),
            },
            base_url: match base_url {
                Some(b) => b,
                None => String::new(),
            },
            max_results,
        }
    }
}

/// One search result.
#[derive(Debug, Clone, PartialEq, Eq)]
pub struct SearchItem {
    pub title: String,
    pub url: String,
    pub content: String,
}

pub struct WebSearchTool {
    pub config: WebSearchConfig,
    pub proxy: Option<String>,
}

impl WebSearchTool {
    pub fn new(config: WebSearchConfig, proxy: Option<String>) -> (res: Self)
        ensures
            res.config == config,
            res.proxy == proxy,
    {
        WebSearchTool { config, proxy }
    }
}

/// One `regex` replacement step; `None` when the pattern does not compile.
pub open spec fn replace_step(pattern: Seq<char>, text: Option<Seq<char>>, rep: Seq<char>) -> Option<
    Seq<char>,
> {
    match text {
        Some(t) => if spec_regex_valid(pattern) {
            Some(spec_regex_replace_all(pattern, t, rep))
        } else {
            None
        },
        None => None,
    }
}

/// A snippet as shown: tags removed, entities decoded, trimmed, runs of
/// blanks and of three or more line breaks collapsed.
pub open spec fn spec_search_normalize(text: Seq<char>) -> Option<Seq<char>> {
    match replace_step("<[^>]+>"@, Some(text), ""@) {
        Some(t) => replace_step(
            "\\n{3,}"@,
            replace_step("[ \\t]+"@, Some(spec_trim(spec_decode_html_entities(t))), " "@),
            "\n\n"@,
        ),
        None => None,
    }
}

/// `replace_step` on plain text.
fn replace_or_none(pattern: &str, text: &str, rep: &str) -> (res: Option<String>)
    ensures
        res.is_some() == replace_step(pattern@, Some(text@), rep@).is_some(),
        res matches Some(r) ==> replace_step(pattern@, Some(text@), rep@) == Some(r@),
{
    regex_replace_all(pattern, text, rep)
}

/// Normalizes a title or snippet; `None` where a pattern does not compile.
fn normalize(text: &str) -> (res: Option<String>)
    ensures
        res.is_some() == spec_search_normalize(text@).is_some(),
        res matches Some(r) ==> spec_search_normalize(text@) == Some(r@),
{
    let t = replace_or_none("<[^>]+>", text, "")?;
    let decoded = decode_html_entities(t.as_str());
    let trimmed = string_of(&trim_chars(&chars_of(decoded.as_str())));
    let t = replace_or_none("[ \\t]+", trimmed.as_str(), " ")?;
    replace_or_none("\\n{3,}", t.as_str(), "\n\n")
}

/// The lines shown for `items[i..]`, numbered from `i + 1`; `None` where a
/// normalization pattern does not compile.
pub open spec fn result_lines(items: Seq<SearchItem>, i: int) -> Option<Seq<Seq<char>>>
    decreases items.len() - i,
{
    if i < 0 || i >= items.len() {
        Some(Seq::empty())
    } else {
        match (
            spec_search_normalize(items[i].title@),
            spec_search_normalize(items[i].content@),
            result_lines(items, i + 1),
        ) {
            (Some(title), Some(snippet), Some(rest)) => Some(
                seq![spec_decimal((i + 1) as nat) + ". "@ + title + "\n   "@ + items[i].url@] + (
                if snippet.len() > 0 {
                    seq!["   "@ + snippet]
                } else {
                    Seq::empty()
                }) + rest,
            ),
            _ => None,
        }
    }
}

/// The text of the results of `query`, showing the first `count` items.
pub open spec fn spec_format_results(query: Seq<char>, items: Seq<SearchItem>, count: nat) -> Option<
    Seq<char>,
> {
    if items.len() == 0 {
        Some("No results for: "@ + query)
    } else {
        let shown = items.take(if count < items.len() { count as int } else { items.len() as int });
        match result_lines(shown, 0) {
            Some(lines) => Some(spec_join(seq!["Results for: "@ + query + "\n"@] + lines, "\n"@)),
            None => None,
        }
    }
}

/// `acc` followed by the lines in `rest`, if any.
pub open spec fn prepend_lines(acc: Seq<Seq<char>>, rest: Option<Seq<Seq<char>>>) -> Option<
    Seq<Seq<char>>,
> {
    match rest {
        Some(r) => Some(acc + r),
        None => None,
    }
}

/// The text of the results of `query`, showing the first `count` items;
/// `None` where a normalization pattern does not compile.
pub fn format_results(query: &str, items: &Vec<SearchItem>, count: usize) -> (res: Option<String>)
    ensures
        res.is_some() == spec_format_results(query@, items@, count as nat).is_some(),
        res matches Some(r) ==> spec_format_results(query@, items@, count as nat) == Some(r@),
{
    proof {
        reveal_strlit("No results for: ");
        reveal_strlit("Results for: ");
        reveal_strlit("\n");
        reveal_strlit(". ");
        reveal_strlit("\n   ");
        reveal_strlit("   ");
    }
    if items.len() == 0 {
        let mut out: Vec<char> = Vec::new();
        push_str(&mut out, "No results for: ");
        push_str(&mut out, query);
        return Some(string_of(&out));
    }
    let n = if count < items.len() { count } else { items.len() };
    let ghost shown = items@.take(n as int);
    let mut lines: Vec<Vec<char>> = Vec::new();
    let mut head: Vec<char> = Vec::new();
    push_str(&mut head, "Results for: ");
    push_str(&mut head, query);
    push_str(&mut head, "\n");
    let ghost first = head@;
    lines.push(head);
    let mut i: usize = 0;
    while i < n
        invariant
            i <= n <= items@.len(),
            items@.len() > 0,
            n == if count < items@.len() { count as int } else { items@.len() as int },
            shown == items@.take(n as int),
            result_lines(shown, 0) == prepend_lines(
                lines@.map_values(|v: Vec<char>| v@).drop_first(),
                result_lines(shown, i as int),
            ),
            lines@.len() >= 1,
            lines@[0]@ == first,
        decreases n - i,
    {
        let item = &items[i];
        assert(shown[i as int] == items@[i as int]);
        let title = match normalize(item.title.as_str()) {
            Some(t) => t,
            None => {
                assert(result_lines(shown, i as int) is None);
                return None;
            },
        };
        let snippet = match normalize(item.content.as_str()) {
            Some(t) => t,
            None => {
                assert(result_lines(shown, i as int) is None);
                return None;
            },
        };
        let ghost before = lines@.map_values(|v: Vec<char>| v@);
        let mut line: Vec<char> = Vec::new();
        push_decimal(&mut line, (i + 1) as u64);
        push_str(&mut line, ". ");
        push_str(&mut line, title.as_str());
        push_str(&mut line, "\n   ");
        push_str(&mut line, item.url.as_str());
        lines.push(line);
        if !snippet.as_str().is_empty() {
            let mut sl: Vec<char> = Vec::new();
            push_str(&mut sl, "   ");
            push_str(&mut sl, snippet.as_str());
            lines.push(sl);
        }
        proof {
            match result_lines(shown, i + 1) {
                Some(rest) => {
                    assert(lines@.map_values(|v: Vec<char>| v@).drop_first() + rest =~= before.drop_first()
                        + result_lines(shown, i as int).unwrap());
                },
                None => {},
            }
        }
        i = i + 1;
    }
    assert(lines@.map_values(|v: Vec<char>| v@) =~= seq![first] + result_lines(shown, 0).unwrap());
    Some(string_of(&join_chars(&lines, "\n")))
}

/// The search providers.
#[derive(Debug, Clone, Copy, PartialEq, Eq)]
pub enum SearchProvider {
    Brave,
    Tavily,
    SearXNG,
    Jina,
    DuckDuckGo,
}

/// What a search request turns into.
#[derive(Debug, Clone, PartialEq, Eq)]
pub enum SearchPlan {
    /// Ask `provider` for `count` results for `query`.
    Run { provider: SearchProvider, query: String, count: usize },
    /// The answer without searching (an unknown provider).
    Answer(String),
}

/// The number of results a search asks for: the requested count, the
/// configured one by default, kept within 1..=10.
pub open spec fn spec_search_count(requested: Option<i64>, max_results: usize) -> nat {
    let c: i64 = match requested {
        Some(c) => c,
        None => #[verifier::truncate] (max_results as i64),
    };
    if c < 1 {
        1
    } else if c > 10 {
        10
    } else {
        c as nat
    }
}

/// A search asks for 1 to 10 results: the requested count when it lies in
/// that range, the nearer bound otherwise, and the configured count when
/// none is requested.
pub proof fn law_search_count_in_range(requested: Option<i64>, max_results: usize)
    ensures
        1 <= spec_search_count(requested, max_results) <= 10,
        requested matches Some(c) ==> (1 <= c <= 10 ==> spec_search_count(requested, max_results)
            == c),
        requested matches Some(c) ==> (c < 1 ==> spec_search_count(requested, max_results) == 1),
        requested matches Some(c) ==> (c > 10 ==> spec_search_count(requested, max_results) == 10),
        requested is None && 1 <= max_results <= 10 ==> spec_search_count(requested, max_results)
            == max_results,
{
}

/// The provider a (trimmed, lowercased) name selects.
pub open spec fn spec_provider(name: Seq<char>) -> Option<SearchProvider> {
    if name == "brave"@ {
        Some(SearchProvider::Brave)
    } else if name == "tavily"@ {
        Some(SearchProvider::Tavily)
    } else if name == "searxng"@ {
        Some(SearchProvider::SearXNG)
    } else if name == "jina"@ {
        Some(SearchProvider::Jina)
    } else if name == "duckduckgo"@ || name == ""@ {
        Some(SearchProvider::DuckDuckGo)
    } else {
        None
    }
}

/// The names the unknown-provider answer lists as available (duckduckgo,
/// brave, tavily, searxng, jina) are accepted, each selecting the provider
/// of that name, and so is the empty name (DuckDuckGo); no other name is.
pub proof fn law_listed_providers_are_accepted(name: Seq<char>)
    ensures
        spec_provider(name) is Some <==> (name == "duckduckgo"@ || name == "brave"@ || name
            == "tavily"@ || name == "searxng"@ || name == "jina"@ || name.len() == 0),
        name == "duckduckgo"@ || name.len() == 0 ==> spec_provider(name) == Some(
            SearchProvider::DuckDuckGo,
        ),
        name == "brave"@ ==> spec_provider(name) == Some(SearchProvider::Brave),
        name == "tavily"@ ==> spec_provider(name) == Some(SearchProvider::Tavily),
        name == "searxng"@ ==> spec_provider(name) == Some(SearchProvider::SearXNG),
        name == "jina"@ ==> spec_provider(name) == Some(SearchProvider::Jina),
{
    reveal_strlit("brave");
    reveal_strlit("tavily");
    reveal_strlit("searxng");
    reveal_strlit("jina");
    reveal_strlit("duckduckgo");
    reveal_strlit("");
    if name.len() == 0 {
        assert(name =~= ""@);
    }
}

/// The configured provider's name as it is matched.
pub open spec fn provider_name(config: WebSearchConfig) -> Seq<char> {
    spec_to_lowercase(spec_trim(config.provider@))
}

impl WebSearchTool {
    /// Decides what a search for `query` (with the requested `count`) does.
    pub fn plan(&self, query: &str, count: Option<i64>) -> (res: Result<SearchPlan, ToolError>)
        ensures
            query@.len() == 0 ==> (res matches Err(ToolError::InvalidArgs(m)) && m@
                == "query is required"@),
            query@.len() > 0 ==> match spec_provider(provider_name(self.config)) {
                Some(p) => res matches Ok(SearchPlan::Run { provider, query: q, count: c })
                    && provider == p && q@ == query@ && c == spec_search_count(
                    count,
                    self.config.max_results,
                ),
                None => res matches Ok(SearchPlan::Answer(m)) && m@
                    == "Error: unknown search provider '"@ + provider_name(self.config)
                    + "'. Available: duckduckgo (free), brave, tavily, searxng, jina"@,
            },
    {
        proof {
            reveal_strlit("query is required");
            reveal_strlit("brave");
            reveal_strlit("tavily");
            reveal_strlit("searxng");
            reveal_strlit("jina");
            reveal_strlit("duckduckgo");
            reveal_strlit("");
            reveal_strlit("Error: unknown search provider '");
            reveal_strlit("'. Available: duckduckgo (free), brave, tavily, searxng, jina");
        }
        let c: i64 = match count {
            Some(c) => c,
            None => #[verifier::truncate] (self.config.max_results as i64),
        };
        let c: usize = if c < 1 {
            1
        } else if c > 10 {
            10
        } else {
            c as usize
        };
        if query.is_empty() {
            return Err(ToolError::InvalidArgs(String::from_str("query is required")));
        }
        let trimmed = string_of(&trim_chars(&chars_of(self.config.provider.as_str())));
        let name = to_lowercase(trimmed.as_str());
        let n = name.as_str();
        let provider = if str_eq(n, "brave") {
            SearchProvider::Brave
        } else if str_eq(n, "tavily") {
            SearchProvider::Tavily
        } else if str_eq(n, "searxng") {
            SearchProvider::SearXNG
        } else if str_eq(n, "jina") {
            SearchProvider::Jina
        } else if str_eq(n, "duckduckgo") || str_eq(n, "") {
            SearchProvider::DuckDuckGo
        } else {
            let mut out: Vec<char> = Vec::new();
            push_str(&mut out, "Error: unknown search provider '");
            push_str(&mut out, n);
            push_str(&mut out, "'. Available: duckduckgo (free), brave, tavily, searxng, jina");
            return Ok(SearchPlan::Answer(string_of(&out)));
        };
        Ok(SearchPlan::Run { provider, query: query.to_string(), count: c })
    }

    /// The API key to use: the configured one, else the one from the
    /// provider's environment variable (`env_key`), else none.
    pub fn api_key(&self, env_key: Option<String>) -> (res: String)
        ensures
            self.config.api_key@.len() > 0 ==> res@ == self.config.api_key@,
            self.config.api_key@.len() == 0 ==> res@ == match env_key {
                Some(k) => k@,
                None => Seq::<char>::empty(),
            },
    {
        if self.config.api_key.as_str().is_empty() {
            match env_key {
                Some(k) => k,
                None => String::new(),
            }
        } else {
            self.config.api_key.clone()
        }
    }

    /// The SearXNG search endpoint: the configured base URL (else the one
    /// from the environment, `env_base`) without trailing slashes, then
    /// `/search`; an error text when there is no base URL.
    pub fn searxng_endpoint(&self, env_base: Option<String>) -> (res: Result<String, String>)
        ensures
            ({
                let base = if self.config.base_url@.len() > 0 {
                    self.config.base_url@
                } else {
                    match env_base {
                        Some(b) => b@,
                        None => Seq::<char>::empty(),
                    }
                };
                if base.len() == 0 {
                    res matches Err(m) && m@ == "Error: SEARXNG_BASE_URL not configured"@
                } else {
                    res matches Ok(e) && e@ == spec_trim_end_char(base, '/') + "/search"@
                }
            }),
    {
        proof {
            reveal_strlit("Error: SEARXNG_BASE_URL not configured");
            reveal_strlit("/search");
        }
        let base = if self.config.base_url.as_str().is_empty() {
            match env_base {
                Some(b) => b,
                None => String::new(),
            }
        } else {
            self.config.base_url.clone()
        };
        if base.as_str().is_empty() {
            return Err(String::from_str("Error: SEARXNG_BASE_URL not configured"));
        }
        let mut out = trim_end_char(&chars_of(base.as_str()), '/');
        push_str(&mut out, "/search");
        Ok(string_of(&out))
    }

    /// The DuckDuckGo instant-answer URL for `query`.
    pub fn duckduckgo_url(query: &str) -> (res: String)
        ensures
            res@ == "https://api.duckduckgo.com/?q="@ + crate::pattern::spec_url_encode(query@)
                + "&format=json&no_redirect=1"@,
    {
        proof {
            reveal_strlit("https://api.duckduckgo.com/?q=");
            reveal_strlit("&format=json&no_redirect=1");
        }
        let mut out: Vec<char> = Vec::new();
        push_str(&mut out, "https://api.duckduckgo.com/?q=");
        let enc = crate::pattern::url_encode(query);
        push_str(&mut out, enc.as_str());
        push_str(&mut out, "&format=json&no_redirect=1");
        string_of(&out)
    }
}

/// The first `n` items.
pub fn take_items(items: Vec<SearchItem>, n: usize) -> (res: Vec<SearchItem>)
    ensures
        res@ == items@.take(if n < items@.len() { n as int } else { items@.len() as int }),
{
    let mut items = items;
    if n < items.len() {
        items.truncate(n);
    }
    assert(items@ =~= items@.take(items@.len() as int));
    items
}

/// A Jina result's content cut to its first 500 characters, when it is
/// longer.
pub open spec fn jina_cut(item: SearchItem) -> Seq<char> {
    if item.content@.len() > 500 {
        item.content@.take(500)
    } else {
        item.content@
    }
}

/// A Jina result keeps the start of its content, at most 500 characters,
/// and all of it when it is no longer.
pub proof fn law_jina_content_at_most_500(item: SearchItem)
    ensures
        jina_cut(item).len() <= 500,
        jina_cut(item) == item.content@.subrange(0, jina_cut(item).len() as int),
        item.content@.len() <= 500 ==> jina_cut(item) == item.content@,
{
}

/// The first `n` of `items`.
pub open spec fn first_n<A>(items: Seq<A>, n: nat) -> Seq<A> {
    items.take(if n < items.len() { n as int } else { items.len() as int })
}

/// `kept` is what is kept of the Jina results `items`: the first `n`, each
/// content cut to 500 characters.
pub open spec fn jina_kept(items: Seq<SearchItem>, n: nat, kept: Seq<SearchItem>) -> bool {
    &&& kept.len() == first_n(items, n).len()
    &&& forall|i: int|
        0 <= i < kept.len() ==> {
            &&& (#[trigger] kept[i]).title == first_n(items, n)[i].title
            &&& kept[i].url == first_n(items, n)[i].url
            &&& jina_cut(first_n(items, n)[i]) == kept[i].content@
        }
}

/// The Jina results kept: the first `n`, each content cut to 500 characters.
pub fn jina_items(items: Vec<SearchItem>, n: usize) -> (res: Vec<SearchItem>)
    ensures
        jina_kept(items@, n as nat, res@),
{
    let ghost orig = items@;
    let kept = take_items(items, n);
    let mut out: Vec<SearchItem> = Vec::new();
    let mut i: usize = 0;
    while i < kept.len()
        invariant
            kept@ == first_n(orig, n as nat),
            items@ == orig,
            i <= kept@.len(),
            out@.len() == i,
            forall|k: int|
                0 <= k < i ==> {
                    &&& (#[trigger] out@[k]).title == kept@[k].title
                    &&& out@[k].url == kept@[k].url
                    &&& jina_cut(kept@[k]) == out@[k].content@
                },
        decreases kept@.len() - i,
    {
        let item = &kept[i];
        let chars = chars_of(item.content.as_str());
        let content = if chars.len() > 500 {
            string_of(&slice_chars(&chars, 0, 500))
        } else {
            item.content.clone()
        };
        proof {
            if chars@.len() > 500 {
                assert(chars@.subrange(0, 500) =~= item.content@.take(500));
            }
        }
        out.push(SearchItem { title: item.title.clone(), url: item.url.clone(), content });
        i = i + 1;
    }
    out
}

/// A DuckDuckGo related topic: its text and its URL.
pub open spec fn ddg_item(topic: (Option<String>, Option<String>)) -> (Seq<char>, Seq<char>, Seq<char>) {
    let text = match topic.0 {
        Some(t) => t@,
        None => Seq::<char>::empty(),
    };
    (text, topic.1.unwrap()@, text)
}

/// `kept` is what is kept of the DuckDuckGo related `topics`: the first `n`
/// that have a URL, each as its text, URL and text again.
pub open spec fn ddg_kept(topics: Seq<(Option<String>, Option<String>)>, n: nat, kept: Seq<SearchItem>) -> bool {
    let with_url = topics.filter(|t: (Option<String>, Option<String>)| t.1.is_some());
    let first = with_url.take(if n < with_url.len() { n as int } else { with_url.len() as int });
    &&& kept.len() == first.len()
    &&& forall|i: int|
        0 <= i < first.len() ==> ((#[trigger] kept[i]).title@, kept[i].url@, kept[i].content@)
            == ddg_item(first[i])
}

/// The DuckDuckGo results kept: the first `n` topics that have a URL, with
/// the topic's text as title and content.
pub fn duckduckgo_items(topics: &Vec<(Option<String>, Option<String>)>, n: usize) -> (res: Vec<
    SearchItem,
>)
    ensures
        ddg_kept(topics@, n as nat, res@),
{
    let ghost pred = |t: (Option<String>, Option<String>)| t.1.is_some();
    let mut out: Vec<SearchItem> = Vec::new();
    let mut i: usize = 0;
    let ghost mut seen: Seq<(Option<String>, Option<String>)> = Seq::empty();
    while i < topics.len() && out.len() < n
        invariant
            i <= topics@.len(),
            pred == (|t: (Option<String>, Option<String>)| t.1.is_some()),
            seen == topics@.take(i as int).filter(pred),
            out@.len() == seen.len(),
            out@.len() <= n,
            forall|k: int|
                0 <= k < out@.len() ==> ((#[trigger] out@[k]).title@, out@[k].url@, out@[k].content@)
                    == ddg_item(seen[k]),
        decreases topics@.len() - i,
    {
        let (text, url) = &topics[i];
        assert(topics@.take(i + 1).drop_last() =~= topics@.take(i as int));
        proof {
            reveal_with_fuel(Seq::filter, 1);
        }
        if let Some(u) = url {
            let t = match text {
                Some(t) => t.clone(),
                None => String::new(),
            };
            out.push(SearchItem { title: t.clone(), url: u.clone(), content: t });
            proof {
                seen = seen.push(topics@[i as int]);
            }
        }
        i = i + 1;
    }
    proof {
        lemma_filter_split(topics@, pred, i as int);
        let with_url = topics@.filter(pred);
        if i == topics@.len() {
            assert(topics@.take(i as int) =~= topics@);
            assert(topics@.skip(i as int).filter(pred).len() == 0) by {
                assert(topics@.skip(i as int) =~= Seq::<(Option<String>, Option<String>)>::empty());
                reveal_with_fuel(Seq::filter, 1);
            }
            assert(with_url =~= seen);
            assert(with_url.take(with_url.len() as int) =~= with_url);
        } else {
            assert(out@.len() == n);
            assert(with_url.take(n as int) =~= seen);
        }
    }
    out
}

/// The name a provider goes by in error texts.
pub open spec fn provider_label(p: SearchProvider) -> Seq<char> {
    match p {
        SearchProvider::Brave => "Brave"@,
        SearchProvider::Tavily => "Tavily"@,
        SearchProvider::SearXNG => "SearXNG"@,
        SearchProvider::Jina => "Jina"@,
        SearchProvider::DuckDuckGo => "DuckDuckGo"@,
    }
}

/// What a search turns to instead of reading a provider's results.
#[derive(Debug, Clone, PartialEq, Eq)]
pub enum SearchOutcome {
    /// Answer with this text.
    Answer(String),
    /// Search DuckDuckGo instead.
    UseDuckDuckGo,
}

/// How a provider's HTTP exchange went, once its reply was read.
#[derive(Debug, Clone, PartialEq, Eq)]
pub enum SearchExchange {
    /// The HTTP client could not be built; the error's message.
    ClientError(String),
    /// The request failed; the error's message.
    SendFailed(String),
    /// The SearXNG endpoint failed the URL check.
    Refused(NetworkError),
    /// The reply's JSON could not be decoded; the error's message.
    Undecodable(String),
    /// The results decoded from the reply, in the provider's order.
    Results(Vec<SearchItem>),
    /// DuckDuckGo's related topics: each one's text and URL.
    Topics(Vec<(Option<String>, Option<String>)>),
}

/// The text of `o`, if any.
pub open spec fn text_of(o: Option<String>) -> Option<Seq<char>> {
    match o {
        Some(t) => Some(t@),
        None => None,
    }
}

impl WebSearchTool {
    /// Brave and Tavily search DuckDuckGo instead when they have no API key.
    pub fn falls_back_without_key(provider: SearchProvider, key: &str) -> (res: bool)
        ensures
            res == ((provider == SearchProvider::Brave || provider == SearchProvider::Tavily)
                && key@.len() == 0),
    {
        (matches!(provider, SearchProvider::Brave) || matches!(provider, SearchProvider::Tavily))
            && key.is_empty()
    }

    /// What a reply's HTTP status decides before its body is read: Brave and
    /// Tavily report rate limiting (429), Jina then turns to DuckDuckGo, and
    /// DuckDuckGo reports a refusal (403); any other status goes on.
    pub fn status_outcome(provider: SearchProvider, status: u16) -> (res: Option<SearchOutcome>)
        ensures
            match provider {
                SearchProvider::Brave => if status == 429 {
                    res matches Some(SearchOutcome::Answer(m)) && m@ == "Error: Brave API rate limited"@
                } else {
                    res is None
                },
                SearchProvider::Tavily => if status == 429 {
                    res matches Some(SearchOutcome::Answer(m)) && m@ == "Error: Tavily API rate limited"@
                } else {
                    res is None
                },
                SearchProvider::Jina => if status == 429 {
                    res == Some(SearchOutcome::UseDuckDuckGo)
                } else {
                    res is None
                },
                SearchProvider::DuckDuckGo => if status == 403 {
                    res matches Some(SearchOutcome::Answer(m)) && m@ == "Error: DuckDuckGo request blocked"@
                } else {
                    res is None
                },
                SearchProvider::SearXNG => res is None,
            },
    {
        match provider {
            SearchProvider::Brave => if status == 429 {
                Some(SearchOutcome::Answer(String::from_str("Error: Brave API rate limited")))
            } else {
                None
            },
            SearchProvider::Tavily => if status == 429 {
                Some(SearchOutcome::Answer(String::from_str("Error: Tavily API rate limited")))
            } else {
                None
            },
            SearchProvider::Jina => if status == 429 {
                Some(SearchOutcome::UseDuckDuckGo)
            } else {
                None
            },
            SearchProvider::DuckDuckGo => if status == 403 {
                Some(SearchOutcome::Answer(String::from_str("Error: DuckDuckGo request blocked")))
            } else {
                None
            },
            SearchProvider::SearXNG => None,
        }
    }

    /// The answer of a search of `provider` for `query` showing `n` results,
    /// given how the exchange went: the error texts, or the results kept
    /// (all for Brave and Tavily, the first `n` for SearXNG, the first `n`
    /// cut to 500 characters for Jina, the first `n` topics with a URL for
    /// DuckDuckGo) in the results text. `None` where a normalization pattern does not compile.
    pub fn search_answer(provider: SearchProvider, query: &str, n: usize, exchange: SearchExchange) -> (res:
        Option<String>)
        ensures
            match exchange {
                SearchExchange::ClientError(e) => text_of(res) == Some("Error: "@ + e@),
                SearchExchange::SendFailed(e) => text_of(res) == Some("Error: "@ + e@),
                SearchExchange::Refused(e) => text_of(res) == Some(
                    "Error: invalid SearXNG URL: "@ + e.spec_message(),
                ),
                SearchExchange::Undecodable(e) => text_of(res) == Some(
                    "Error parsing "@ + provider_label(provider) + " response: "@ + e@,
                ),
                SearchExchange::Results(items) => match provider {
                    SearchProvider::SearXNG => text_of(res) == spec_format_results(
                        query@,
                        first_n(items@, n as nat),
                        n as nat,
                    ),
                    SearchProvider::Jina => exists|kept: Seq<SearchItem>|
                        jina_kept(items@, n as nat, kept) && #[trigger] spec_format_results(
                            query@,
                            kept,
                            n as nat,
                        ) == text_of(res),
                    _ => text_of(res) == spec_format_results(query@, items@, n as nat),
                },
                SearchExchange::Topics(topics) => exists|kept: Seq<SearchItem>|
                    ddg_kept(topics@, n as nat, kept) && #[trigger] spec_format_results(
                        query@,
                        kept,
                        n as nat,
                    ) == text_of(res),
            },
    {
        proof {
            reveal_strlit("Error: ");
            reveal_strlit("Error: invalid SearXNG URL: ");
            reveal_strlit("Error parsing ");
            reveal_strlit(" response: ");
            reveal_strlit("Brave");
            reveal_strlit("Tavily");
            reveal_strlit("SearXNG");
            reveal_strlit("Jina");
            reveal_strlit("DuckDuckGo");
        }
        match exchange {
            SearchExchange::ClientError(e) => {
                let mut out: Vec<char> = Vec::new();
                push_str(&mut out, "Error: ");
                push_str(&mut out, e.as_str());
                Some(string_of(&out))
            },
            SearchExchange::SendFailed(e) => {
                let mut out: Vec<char> = Vec::new();
                push_str(&mut out, "Error: ");
                push_str(&mut out, e.as_str());
                Some(string_of(&out))
            },
            SearchExchange::Refused(e) => {
                let mut out: Vec<char> = Vec::new();
                push_str(&mut out, "Error: invalid SearXNG URL: ");
                let m = e.message();
                push_str(&mut out, m.as_str());
                Some(string_of(&out))
            },
            SearchExchange::Undecodable(e) => {
                let label = match provider {
                    SearchProvider::Brave => "Brave",
                    SearchProvider::Tavily => "Tavily",
                    SearchProvider::SearXNG => "SearXNG",
                    SearchProvider::Jina => "Jina",
                    SearchProvider::DuckDuckGo => "DuckDuckGo",
                };
                let mut out: Vec<char> = Vec::new();
                push_str(&mut out, "Error parsing ");
                push_str(&mut out, label);
                push_str(&mut out, " response: ");
                push_str(&mut out, e.as_str());
                Some(string_of(&out))
            },
            SearchExchange::Results(items) => match provider {
                SearchProvider::SearXNG => {
                    let kept = take_items(items, n);
                    format_results(query, &kept, n)
                },
                SearchProvider::Jina => {
                    let ghost orig = items@;
                    let kept = jina_items(items, n);
                    let res = format_results(query, &kept, n);
                    assert(spec_format_results(query@, kept@, n as nat) == text_of(res));
                    assert(jina_kept(orig, n as nat, kept@));
                    res
                },
                _ => format_results(query, &items, n),
            },
            SearchExchange::Topics(topics) => {
                let kept = duckduckgo_items(&topics, n);
                let res = format_results(query, &kept, n);
                assert(spec_format_results(query@, kept@, n as nat) == text_of(res));
                res
            },
        }
    }
}

/// Filtering splits over a prefix and the rest.
proof fn lemma_filter_split<A>(s: Seq<A>, pred: spec_fn(A) -> bool, i: int)
    requires
        0 <= i <= s.len(),
    ensures
        s.filter(pred) == s.take(i).filter(pred) + s.skip(i).filter(pred),
{
    assert(s =~= s.take(i) + s.skip(i));
    Seq::filter_distributes_over_add(s.take(i), s.skip(i), pred);
}

} // verus!

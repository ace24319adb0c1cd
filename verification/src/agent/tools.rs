//! The agent's tools: the registry of their names and descriptions, lookup by
//! name, and the argument rules every handler shares.
//!
//! The registry is the single source of truth: the model-facing function
//! list, the neutral view for other surfaces and dispatch all derive from
//! [`ToolKind::all`].
use vstd::prelude::*;

use crate::agent::types::str_eq;
use crate::text::{
    chars_of, comma_join, decimal, decimal_i64, is_blank, is_blank_chars, json_list, json_quote, json_string,
    lemma_comma_join_step, string_of, trim, trim_spec,
};

verus! {

/// Default number of articles returned by list/search tools when the model does
/// not specify a limit.
pub const DEFAULT_LIMIT: i64 = 20;

/// Hard cap on rows returned so a single tool call cannot flood the context.
pub const MAX_LIMIT: i64 = 50;

/// One callable tool.
#[derive(Clone, Copy, Debug, PartialEq, Eq, Structural)]
pub enum ToolKind {
    SemanticSearch,
    SearchArticles,
    ListRecentArticles,
    GetArticle,
    GetMarketSnapshot,
    GetDerivatives,
}

/// The registry, in advertising order.
pub open spec fn registry() -> Seq<ToolKind> {
    seq![
        ToolKind::SemanticSearch,
        ToolKind::SearchArticles,
        ToolKind::ListRecentArticles,
        ToolKind::GetArticle,
        ToolKind::GetMarketSnapshot,
        ToolKind::GetDerivatives,
    ]
}

impl ToolKind {
    /// The name a caller invokes the tool by.
    pub open spec fn name_spec(self) -> Seq<char> {
        match self {
            ToolKind::SemanticSearch => "semantic_search"@,
            ToolKind::SearchArticles => "search_articles"@,
            ToolKind::ListRecentArticles => "list_recent_articles"@,
            ToolKind::GetArticle => "get_article"@,
            ToolKind::GetMarketSnapshot => "get_market_snapshot"@,
            ToolKind::GetDerivatives => "get_derivatives"@,
        }
    }

    /// The name a caller invokes the tool by.
    pub fn name(&self) -> (s: &'static str)
        ensures
            s@ == self.name_spec(),
    {
        match self {
            ToolKind::SemanticSearch => "semantic_search",
            ToolKind::SearchArticles => "search_articles",
            ToolKind::ListRecentArticles => "list_recent_articles",
            ToolKind::GetArticle => "get_article",
            ToolKind::GetMarketSnapshot => "get_market_snapshot",
            ToolKind::GetDerivatives => "get_derivatives",
        }
    }

    /// What the tool does, as advertised to the model.
    pub open spec fn description_spec(self) -> Seq<char> {
        match self {
            ToolKind::SemanticSearch => "Semantic (meaning-based) search over stored news articles using vector similarity. Finds relevant articles even when they don't share the exact words as the query. Prefer this for conceptual or topical questions, e.g. \"regulatory risk for stablecoins\" or \"layer-2 scaling progress\". For an exact ticker or proper name, prefer search_articles instead. Lower distance means more relevant."@,
            ToolKind::SearchArticles => "Exact keyword/substring search over stored news articles. Matches the query literally against article titles, summaries, and body content. Best for exact tickers or proper names (e.g. \"HBAR\", \"Coinbase\"). For conceptual or topical questions, prefer semantic_search."@,
            ToolKind::ListRecentArticles => "List the most recently published stored articles, optionally filtered by category. Use this when the user asks what's new or what's happening in a given area."@,
            ToolKind::GetArticle => "Fetch the full stored record for a single article by its numeric id, including the body content. Use this after search or list to read an article in depth."@,
            ToolKind::GetMarketSnapshot => "Get the latest structured market snapshots: the crypto Fear & Greed sentiment index, a top-coins-by-market-cap overview with 24h moves, and total DeFi TVL by chain. Use this for questions about market sentiment/mood, current prices or movers, or DeFi TVL \u{2014} not search_articles. Returns the most recent daily snapshot for each."@,
            ToolKind::GetDerivatives => "Get crypto perpetual-futures derivatives metrics that market makers watch, per tracked symbol (e.g. BTCUSDT, HBARUSDT): open interest (contracts and USD notional, plus its 24h % change), funding rate, mark price, the global long/short account ratio (retail crowd), the taker buy/sell volume ratio (aggressive order flow; >1 = net buying), and the top-trader long/short ratio by position (smart-money positioning). With no arguments, returns the latest reading for every tracked symbol. Pass `symbol` to get that symbol's recent history instead (newest first) for trend questions like \"is funding rising on ETH?\" or \"is open interest building on HBAR?\". Use this for positioning, leverage, order-flow, and funding questions \u{2014} not get_market_snapshot (spot prices/sentiment/TVL) or search_articles."@,
        }
    }

    /// What the tool does, as advertised to the model.
    pub fn description(&self) -> (s: &'static str)
        ensures
            s@ == self.description_spec(),
    {
        match self {
            ToolKind::SemanticSearch => "Semantic (meaning-based) search over stored news articles using vector similarity. Finds relevant articles even when they don't share the exact words as the query. Prefer this for conceptual or topical questions, e.g. \"regulatory risk for stablecoins\" or \"layer-2 scaling progress\". For an exact ticker or proper name, prefer search_articles instead. Lower distance means more relevant.",
            ToolKind::SearchArticles => "Exact keyword/substring search over stored news articles. Matches the query literally against article titles, summaries, and body content. Best for exact tickers or proper names (e.g. \"HBAR\", \"Coinbase\"). For conceptual or topical questions, prefer semantic_search.",
            ToolKind::ListRecentArticles => "List the most recently published stored articles, optionally filtered by category. Use this when the user asks what's new or what's happening in a given area.",
            ToolKind::GetArticle => "Fetch the full stored record for a single article by its numeric id, including the body content. Use this after search or list to read an article in depth.",
            ToolKind::GetMarketSnapshot => "Get the latest structured market snapshots: the crypto Fear & Greed sentiment index, a top-coins-by-market-cap overview with 24h moves, and total DeFi TVL by chain. Use this for questions about market sentiment/mood, current prices or movers, or DeFi TVL \u{2014} not search_articles. Returns the most recent daily snapshot for each.",
            ToolKind::GetDerivatives => "Get crypto perpetual-futures derivatives metrics that market makers watch, per tracked symbol (e.g. BTCUSDT, HBARUSDT): open interest (contracts and USD notional, plus its 24h % change), funding rate, mark price, the global long/short account ratio (retail crowd), the taker buy/sell volume ratio (aggressive order flow; >1 = net buying), and the top-trader long/short ratio by position (smart-money positioning). With no arguments, returns the latest reading for every tracked symbol. Pass `symbol` to get that symbol's recent history instead (newest first) for trend questions like \"is funding rising on ETH?\" or \"is open interest building on HBAR?\". Use this for positioning, leverage, order-flow, and funding questions \u{2014} not get_market_snapshot (spot prices/sentiment/TVL) or search_articles.",
        }
    }

    /// Every tool, in advertising order.
    pub fn all() -> (v: Vec<ToolKind>)
        ensures
            v@ == registry(),
    {
        let mut v: Vec<ToolKind> = Vec::new();
        v.push(ToolKind::SemanticSearch);
        v.push(ToolKind::SearchArticles);
        v.push(ToolKind::ListRecentArticles);
        v.push(ToolKind::GetArticle);
        v.push(ToolKind::GetMarketSnapshot);
        v.push(ToolKind::GetDerivatives);
        assert(v@ =~= registry());
        v
    }
}

/// One property of a tool's argument object, as its JSON Schema describes it.
pub struct Prop {
    /// The key the model fills in.
    pub name: &'static str,
    /// The JSON type of its value.
    pub ty: &'static str,
    /// What the value means, as advertised to the model.
    pub description: &'static str,
    /// The least and greatest value an integer may take, if bounded.
    pub range: Option<(i64, i64)>,
    /// The values a string is restricted to; empty when it is free.
    pub choices: Vec<&'static str>,
}

/// The model of a [`Prop`]: its texts and bounds as plain values.
pub struct PropSpec {
    pub name: Seq<char>,
    pub ty: Seq<char>,
    pub description: Seq<char>,
    pub range: Option<(int, int)>,
    pub choices: Seq<Seq<char>>,
}

/// The texts of a list of string slices.
pub open spec fn str_views(v: Seq<&'static str>) -> Seq<Seq<char>> {
    v.map_values(|s: &'static str| s@)
}

impl View for Prop {
    type V = PropSpec;

    open spec fn view(&self) -> PropSpec {
        PropSpec {
            name: self.name@,
            ty: self.ty@,
            description: self.description@,
            range: match self.range {
                Some((lo, hi)) => Some((lo as int, hi as int)),
                None => None,
            },
            choices: str_views(self.choices@),
        }
    }
}

/// The models of a list of properties.
pub open spec fn prop_views(v: Seq<Prop>) -> Seq<PropSpec> {
    v.map_values(|p: Prop| p@)
}

/// The `limit` property shared by the listing tools.
pub open spec fn limit_prop(description: Seq<char>) -> PropSpec {
    PropSpec {
        name: "limit"@,
        ty: "integer"@,
        description,
        range: Some((1, MAX_LIMIT as int)),
        choices: seq![],
    }
}

/// A string property without a restricted set of values.
pub open spec fn text_prop(name: Seq<char>, description: Seq<char>) -> PropSpec {
    PropSpec { name, ty: "string"@, description, range: None, choices: seq![] }
}

impl ToolKind {
    /// The properties of the tool's argument object, in order.
    pub open spec fn props_spec(self) -> Seq<PropSpec> {
        match self {
            ToolKind::SemanticSearch => seq![
                text_prop("query"@, "Natural-language description of what you're looking for."@),
                limit_prop("Maximum number of articles to return (1-50)."@),
            ],
            ToolKind::SearchArticles => seq![
                text_prop("query"@, "Keywords or phrase to search for, e.g. \"ethereum etf\"."@),
                limit_prop("Maximum number of articles to return (1-25)."@),
            ],
            ToolKind::ListRecentArticles => seq![
                PropSpec {
                    name: "category"@,
                    ty: "string"@,
                    description: "Restrict to a single category."@,
                    range: None,
                    choices: seq!["crypto"@, "ai"@, "security"@, "market"@, "defi"@],
                },
                limit_prop("Maximum number of articles to return (1-25)."@),
            ],
            ToolKind::GetArticle => seq![
                PropSpec {
                    name: "id"@,
                    ty: "integer"@,
                    description: "The article id, as returned by search_articles or list_recent_articles."@,
                    range: None,
                    choices: seq![],
                },
            ],
            ToolKind::GetMarketSnapshot => seq![],
            ToolKind::GetDerivatives => seq![
                text_prop("symbol"@, "Optional exchange symbol (e.g. \"HBARUSDT\"). When set, returns this symbol's recent history newest-first; when omitted, returns the latest reading for all tracked symbols."@),
                limit_prop("When `symbol` is set, how many historical readings to return (1-50)."@),
            ],
        }
    }

    /// The properties the model must fill in.
    pub open spec fn required_spec(self) -> Seq<Seq<char>> {
        match self {
            ToolKind::SemanticSearch | ToolKind::SearchArticles => seq!["query"@],
            ToolKind::GetArticle => seq!["id"@],
            _ => seq![],
        }
    }

    /// The JSON Schema of the tool's arguments, as JSON text.
    pub open spec fn parameters_spec(self) -> Seq<char> {
        schema_json(self.props_spec(), self.required_spec())
    }

    fn limit(description: &'static str) -> (p: Prop)
        ensures
            p@ == limit_prop(description@),
    {
        let p = Prop { name: "limit", ty: "integer", description, range: Some((1, MAX_LIMIT)), choices: Vec::new() };
        assert(p@.choices =~= Seq::<Seq<char>>::empty());
        p
    }

    fn text(name: &'static str, description: &'static str) -> (p: Prop)
        ensures
            p@ == text_prop(name@, description@),
    {
        let p = Prop { name, ty: "string", description, range: None, choices: Vec::new() };
        assert(p@.choices =~= Seq::<Seq<char>>::empty());
        p
    }

    /// The properties of the tool's argument object, in order.
    pub fn props(&self) -> (v: Vec<Prop>)
        ensures
            prop_views(v@) == self.props_spec(),
    {
        let mut v: Vec<Prop> = Vec::new();
        match self {
            ToolKind::SemanticSearch => {
                v.push(Self::text("query", "Natural-language description of what you're looking for."));
                v.push(Self::limit("Maximum number of articles to return (1-50)."));
            },
            ToolKind::SearchArticles => {
                v.push(Self::text("query", "Keywords or phrase to search for, e.g. \"ethereum etf\"."));
                v.push(Self::limit("Maximum number of articles to return (1-25)."));
            },
            ToolKind::ListRecentArticles => {
                let mut choices: Vec<&'static str> = Vec::new();
                choices.push("crypto");
                choices.push("ai");
                choices.push("security");
                choices.push("market");
                choices.push("defi");
                let p = Prop {
                    name: "category",
                    ty: "string",
                    description: "Restrict to a single category.",
                    range: None,
                    choices,
                };
                assert(p@.choices =~= seq!["crypto"@, "ai"@, "security"@, "market"@, "defi"@]);
                v.push(p);
                v.push(Self::limit("Maximum number of articles to return (1-25)."));
            },
            ToolKind::GetArticle => {
                let p = Prop {
                    name: "id",
                    ty: "integer",
                    description: "The article id, as returned by search_articles or list_recent_articles.",
                    range: None,
                    choices: Vec::new(),
                };
                assert(p@.choices =~= Seq::<Seq<char>>::empty());
                v.push(p);
            },
            ToolKind::GetMarketSnapshot => {},
            ToolKind::GetDerivatives => {
                v.push(Self::text("symbol", "Optional exchange symbol (e.g. \"HBARUSDT\"). When set, returns this symbol's recent history newest-first; when omitted, returns the latest reading for all tracked symbols."));
                v.push(Self::limit("When `symbol` is set, how many historical readings to return (1-50)."));
            },
        }
        assert(prop_views(v@) =~= self.props_spec());
        v
    }

    /// The properties the model must fill in.
    pub fn required(&self) -> (v: Vec<&'static str>)
        ensures
            str_views(v@) == self.required_spec(),
    {
        let mut v: Vec<&'static str> = Vec::new();
        match self {
            ToolKind::SemanticSearch | ToolKind::SearchArticles => v.push("query"),
            ToolKind::GetArticle => v.push("id"),
            _ => {},
        }
        assert(str_views(v@) =~= self.required_spec());
        v
    }

    /// The JSON Schema of the tool's arguments, as JSON text: the object the
    /// model fills in, its properties, their ranges and which are required.
    pub fn parameters(&self) -> (s: String)
        ensures
            s@ == self.parameters_spec(),
    {
        let props = self.props();
        let required = self.required();
        schema_text(&props, &required)
    }
}

/// The `"enum"` member of a property whose values are restricted.
pub open spec fn choices_json(choices: Seq<Seq<char>>) -> Seq<char> {
    if choices.len() == 0 {
        seq![]
    } else {
        ",\"enum\":"@ + json_list(choices)
    }
}

/// The `"minimum"` and `"maximum"` members of a bounded integer.
pub open spec fn range_json(range: Option<(int, int)>) -> Seq<char> {
    match range {
        Some((lo, hi)) => ",\"minimum\":"@ + decimal(lo) + ",\"maximum\":"@ + decimal(hi),
        None => seq![],
    }
}

/// One member of the `"properties"` object.
pub open spec fn prop_json(p: PropSpec) -> Seq<char> {
    json_string(p.name) + ":{\"type\":"@ + json_string(p.ty) + ",\"description\":"@ + json_string(
        p.description,
    ) + choices_json(p.choices) + range_json(p.range) + "}"@
}

/// The schema of an argument object with these properties and required keys.
pub open spec fn schema_json(props: Seq<PropSpec>, required: Seq<Seq<char>>) -> Seq<char> {
    "{\"type\":\"object\",\"properties\":{"@ + comma_join(props.map_values(|p: PropSpec| prop_json(p)))
        + "},\"required\":"@ + json_list(required) + "}"@
}

fn json_list_text(items: &Vec<&'static str>) -> (s: String)
    ensures
        s@ == json_list(str_views(items@)),
{
    let ghost parts = str_views(items@).map_values(|s: Seq<char>| json_string(s));
    let mut out = String::from_str("[");
    let mut i: usize = 0;
    while i < items.len()
        invariant
            i <= items.len(),
            parts == str_views(items@).map_values(|s: Seq<char>| json_string(s)),
            out@ == "["@ + comma_join(parts.take(i as int)),
        decreases items.len() - i,
    {
        proof {
            lemma_comma_join_step(parts, i as int);
        }
        if i > 0 {
            out = out.concat(",");
        }
        let q = json_quote(items[i]);
        out = out.concat(q.as_str());
        i += 1;
    }
    assert(parts.take(items.len() as int) =~= parts);
    out.concat("]")
}

fn prop_text(p: &Prop) -> (s: String)
    ensures
        s@ == prop_json(p@),
{
    let mut out = json_quote(p.name);
    out = out.concat(":{\"type\":");
    out = out.concat(json_quote(p.ty).as_str());
    out = out.concat(",\"description\":");
    out = out.concat(json_quote(p.description).as_str());
    if p.choices.len() > 0 {
        out = out.concat(",\"enum\":");
        out = out.concat(json_list_text(&p.choices).as_str());
    }
    match p.range {
        Some((lo, hi)) => {
            out = out.concat(",\"minimum\":");
            out = out.concat(decimal_i64(lo).as_str());
            out = out.concat(",\"maximum\":");
            out = out.concat(decimal_i64(hi).as_str());
        },
        None => {},
    }
    out.concat("}")
}

fn schema_text(props: &Vec<Prop>, required: &Vec<&'static str>) -> (s: String)
    ensures
        s@ == schema_json(prop_views(props@), str_views(required@)),
{
    let ghost parts = prop_views(props@).map_values(|p: PropSpec| prop_json(p));
    let mut out = String::from_str("{\"type\":\"object\",\"properties\":{");
    let mut i: usize = 0;
    while i < props.len()
        invariant
            i <= props.len(),
            parts == prop_views(props@).map_values(|p: PropSpec| prop_json(p)),
            out@ == "{\"type\":\"object\",\"properties\":{"@ + comma_join(parts.take(i as int)),
        decreases props.len() - i,
    {
        proof {
            lemma_comma_join_step(parts, i as int);
        }
        if i > 0 {
            out = out.concat(",");
        }
        out = out.concat(prop_text(&props[i]).as_str());
        i += 1;
    }
    assert(parts.take(props.len() as int) =~= parts);
    out = out.concat("},\"required\":");
    out = out.concat(json_list_text(required).as_str());
    out.concat("}")
}

/// Every tool's schema is well formed: each required key is one of its
/// properties, the searches require `query` and `get_article` requires `id`
/// while the others require nothing, and a `limit` is an integer bounded by 1
/// and [`MAX_LIMIT`], the range [`resolve_limit`] clamps into.
pub proof fn law_tool_schemas(k: ToolKind)
    ensures
        forall|i: int| #![trigger k.required_spec()[i]] 0 <= i < k.required_spec().len() ==> exists|j: int|
            #![trigger k.props_spec()[j]] 0 <= j < k.props_spec().len() && k.props_spec()[j].name == k.required_spec()[i],
        k.required_spec() == match k {
            ToolKind::SemanticSearch | ToolKind::SearchArticles => seq!["query"@],
            ToolKind::GetArticle => seq!["id"@],
            _ => Seq::<Seq<char>>::empty(),
        },
        forall|j: int| 0 <= j < k.props_spec().len() && (#[trigger] k.props_spec()[j]).name == "limit"@ ==> k.props_spec()[j].ty
            == "integer"@ && k.props_spec()[j].range == Some((1int, MAX_LIMIT as int)),
{
    reveal_strlit("query");
    reveal_strlit("limit");
    reveal_strlit("category");
    reveal_strlit("id");
    reveal_strlit("symbol");
    let p = k.props_spec();
    let r = k.required_spec();
    assert forall|j: int| 0 <= j < p.len() && (#[trigger] p[j]).name == "limit"@ implies p[j].ty == "integer"@
        && p[j].range == Some((1int, MAX_LIMIT as int)) by {
        if j == 0 {
            assert(p[0].name[0] != "limit"@[0]);
        }
    }
    match k {
        ToolKind::SemanticSearch | ToolKind::SearchArticles | ToolKind::GetArticle => {
            assert(p[0].name == r[0]);
        },
        _ => {},
    }
}

/// The first registry entry named `name`.
pub open spec fn find_spec(name: Seq<char>) -> Option<ToolKind> {
    if exists|i: int| 0 <= i < registry().len() && registry()[i].name_spec() == name {
        Some(registry()[choose|i: int| 0 <= i < registry().len() && registry()[i].name_spec() == name && forall|j: int| 0 <= j < i ==> registry()[j].name_spec() != name])
    } else {
        None
    }
}

/// Look a tool up by name, as dispatch does: the first registry entry with
/// that name, if any.
pub fn find_tool(name: &str) -> (r: Option<ToolKind>)
    ensures
        r == find_spec(name@),
{
    let all = ToolKind::all();
    let mut i: usize = 0;
    while i < all.len()
        invariant
            i <= all.len(),
            all@ == registry(),
            forall|j: int| 0 <= j < i ==> registry()[j].name_spec() != name@,
        decreases all.len() - i,
    {
        if str_eq(all[i].name(), name) {
            proof {
                let k = choose|k: int| 0 <= k < registry().len() && registry()[k].name_spec() == name@ && forall|j: int| 0 <= j < k ==> registry()[j].name_spec() != name@;
                assert(k == i) by {
                    if k < i {
                        assert(registry()[k].name_spec() != name@);
                    }
                    if i < k {
                        assert(registry()[i as int].name_spec() != name@);
                    }
                }
            }
            return Some(all[i]);
        }
        i += 1;
    }
    None
}

/// Every tool is found under its own name: names do not collide, so dispatch
/// reaches the tool a caller advertised.
pub proof fn law_lookup_finds_each_tool(k: ToolKind)
    ensures
        find_spec(k.name_spec()) == Some(k),
{
    reveal_strlit("semantic_search");
    reveal_strlit("search_articles");
    reveal_strlit("list_recent_articles");
    reveal_strlit("get_article");
    reveal_strlit("get_market_snapshot");
    reveal_strlit("get_derivatives");
    let r = registry();
    let i: int = match k {
        ToolKind::SemanticSearch => 0,
        ToolKind::SearchArticles => 1,
        ToolKind::ListRecentArticles => 2,
        ToolKind::GetArticle => 3,
        ToolKind::GetMarketSnapshot => 4,
        ToolKind::GetDerivatives => 5,
    };
    assert(r[i] == k);
    assert forall|a: int, b: int| 0 <= a < r.len() && 0 <= b < r.len() && a != b implies r[a].name_spec() != r[b].name_spec() by {
        if r[a].name_spec() == r[b].name_spec() {
            let x = r[a].name_spec();
            let y = r[b].name_spec();
            assert(x.len() == y.len());
            assert(x[0] == y[0]);
            assert(x[4] == y[4]);
        }
    }
    let c = choose|c: int| 0 <= c < r.len() && r[c].name_spec() == k.name_spec() && forall|j: int| 0 <= j < c ==> r[j].name_spec() != k.name_spec();
    assert(c == i);
}

/// A requested limit clamped into `1..=MAX_LIMIT`, or the default when absent.
pub open spec fn limit_spec(limit: Option<i64>, default: i64, max: i64) -> i64 {
    let l = match limit {
        Some(l) => l,
        None => default,
    };
    if l < 1 {
        1
    } else if l > max {
        max
    } else {
        l
    }
}

/// Clamp a caller-provided limit into `1..=MAX_LIMIT`, falling back to the
/// default when absent.
pub fn resolve_limit(limit: Option<i64>) -> (r: i64)
    ensures
        r == limit_spec(limit, DEFAULT_LIMIT, MAX_LIMIT),
        1 <= r <= MAX_LIMIT,
{
    let l = match limit {
        Some(l) => l,
        None => DEFAULT_LIMIT,
    };
    if l < 1 {
        1
    } else if l > MAX_LIMIT {
        MAX_LIMIT
    } else {
        l
    }
}

/// Extract the required, non-empty `query` argument (the string as given).
pub fn require_query(query: Option<&str>) -> (r: Result<&str, String>)
    ensures
        match query {
            Some(q) => if is_blank(q@) {
                r matches Err(m) && m@ == "missing required `query` argument"@
            } else {
                r == Ok::<&str, String>(q)
            },
            None => r matches Err(m) && m@ == "missing required `query` argument"@,
        },
{
    match query {
        Some(q) => {
            let c = chars_of(q);
            if is_blank_chars(&c) {
                Err(String::from_str("missing required `query` argument"))
            } else {
                Ok(q)
            }
        },
        None => Err(String::from_str("missing required `query` argument")),
    }
}

/// The `symbol` argument of `get_derivatives`, trimmed; blank counts as absent.
pub fn symbol_arg(symbol: Option<&str>) -> (r: Option<String>)
    ensures
        match symbol {
            Some(s) => if is_blank(s@) {
                r is None
            } else {
                r matches Some(t) && t@ == trim_spec(s@)
            },
            None => r is None,
        },
{
    match symbol {
        Some(s) => {
            let c = chars_of(s);
            if is_blank_chars(&c) {
                proof {
                    crate::text::lemma_trim_empty_iff_blank(s@);
                }
                None
            } else {
                Some(string_of(&trim(&c)))
            }
        },
        None => None,
    }
}

/// The error for a call naming no known tool.
pub fn unknown_tool(name: &str) -> (m: String)
    ensures
        m@ == "unknown tool: "@ + name@,
{
    String::from_str("unknown tool: ").concat(name)
}

/// The arguments a tool call may carry, as read from the model's JSON object;
/// a field the object lacks, or holds with another JSON type, is `None`.
pub struct ToolArgs {
    pub query: Option<String>,
    pub limit: Option<i64>,
    pub category: Option<String>,
    pub id: Option<i64>,
    pub symbol: Option<String>,
}

impl ToolArgs {
    /// No arguments at all.
    pub fn empty() -> (a: ToolArgs)
        ensures
            a.query is None,
            a.limit is None,
            a.category is None,
            a.id is None,
            a.symbol is None,
    {
        ToolArgs { query: None, limit: None, category: None, id: None, symbol: None }
    }
}

/// What a tool call asks of the article store.
pub enum ToolQuery {
    /// Meaning-based search for `query`.
    SemanticSearch { query: String, limit: i64 },
    /// Keyword search for `query`.
    KeywordSearch { query: String, limit: i64 },
    /// The newest articles, optionally of one category.
    ListRecent { category: Option<String>, limit: i64 },
    /// One full article.
    GetArticle { id: i64 },
    /// The latest daily market snapshots.
    MarketSnapshot,
    /// One symbol's recent derivatives readings, newest first.
    DerivativesHistory { symbol: String, limit: i64 },
    /// The latest derivatives reading of every tracked symbol.
    LatestDerivatives,
}

/// The error for a search without a usable `query`.
pub open spec fn query_error() -> Seq<char> {
    "missing required `query` argument"@
}

/// The error for `get_article` without an integer `id`.
pub open spec fn id_error() -> Seq<char> {
    "missing required integer `id` argument"@
}

/// The text of an optional string, if any.
pub open spec fn opt_view(o: Option<String>) -> Option<Seq<char>> {
    match o {
        Some(s) => Some(s@),
        None => None,
    }
}

/// Whether a usable `query` was given.
pub open spec fn has_query(args: ToolArgs) -> bool {
    args.query matches Some(q) && !is_blank(q@)
}

impl ToolKind {
    /// Whether the tool reads its argument string at all; one that takes no
    /// parameters ignores whatever the model sent.
    pub fn reads_arguments(&self) -> (r: bool)
        ensures
            r == !(self is GetMarketSnapshot),
    {
        !matches!(self, ToolKind::GetMarketSnapshot)
    }
}

/// The model's argument text with surrounding whitespace removed, or `None`
/// when it is blank: some models send an empty string for a tool with no
/// required arguments, which counts as no arguments rather than bad JSON.
pub fn args_text(arguments: &str) -> (r: Option<String>)
    ensures
        match r {
            Some(t) => !is_blank(arguments@) && t@ == trim_spec(arguments@),
            None => is_blank(arguments@),
        },
{
    let c = chars_of(arguments);
    if is_blank_chars(&c) {
        None
    } else {
        Some(string_of(&trim(&c)))
    }
}

/// Turn a call of tool `kind` with `args` into the query it runs, checking
/// the arguments the tool requires: searches need a non-blank `query`,
/// `get_article` an integer `id`; limits are clamped into `1..=MAX_LIMIT`
/// with [`DEFAULT_LIMIT`] when absent; a blank `symbol` asks for the latest
/// reading of every symbol.
pub fn plan_call(kind: ToolKind, args: &ToolArgs) -> (r: Result<ToolQuery, String>)
    ensures
        match kind {
            ToolKind::SemanticSearch => if has_query(*args) {
                r matches Ok(ToolQuery::SemanticSearch { query, limit }) && Some(query@) == opt_view(args.query)
                    && limit == limit_spec(args.limit, DEFAULT_LIMIT, MAX_LIMIT)
            } else {
                r matches Err(m) && m@ == query_error()
            },
            ToolKind::SearchArticles => if has_query(*args) {
                r matches Ok(ToolQuery::KeywordSearch { query, limit }) && Some(query@) == opt_view(args.query)
                    && limit == limit_spec(args.limit, DEFAULT_LIMIT, MAX_LIMIT)
            } else {
                r matches Err(m) && m@ == query_error()
            },
            ToolKind::ListRecentArticles => r matches Ok(ToolQuery::ListRecent { category, limit })
                && opt_view(category) == opt_view(args.category) && limit == limit_spec(
                args.limit,
                DEFAULT_LIMIT,
                MAX_LIMIT,
            ),
            ToolKind::GetArticle => match args.id {
                Some(id) => r matches Ok(ToolQuery::GetArticle { id: i }) && i == id,
                None => r matches Err(m) && m@ == id_error(),
            },
            ToolKind::GetMarketSnapshot => r matches Ok(ToolQuery::MarketSnapshot),
            ToolKind::GetDerivatives => match args.symbol {
                Some(s) => if is_blank(s@) {
                    r matches Ok(ToolQuery::LatestDerivatives)
                } else {
                    r matches Ok(ToolQuery::DerivativesHistory { symbol, limit }) && symbol@ == trim_spec(s@)
                        && limit == limit_spec(args.limit, DEFAULT_LIMIT, MAX_LIMIT)
                },
                None => r matches Ok(ToolQuery::LatestDerivatives),
            },
        },
{
    match kind {
        ToolKind::SemanticSearch | ToolKind::SearchArticles => {
            let q = match &args.query {
                Some(q) => require_query(Some(q.as_str())),
                None => require_query(None),
            };
            match q {
                Ok(q) => {
                    let query = String::from_str(q);
                    let limit = resolve_limit(args.limit);
                    if matches!(kind, ToolKind::SemanticSearch) {
                        Ok(ToolQuery::SemanticSearch { query, limit })
                    } else {
                        Ok(ToolQuery::KeywordSearch { query, limit })
                    }
                },
                Err(m) => Err(m),
            }
        },
        ToolKind::ListRecentArticles => {
            let category = match &args.category {
                Some(c) => Some(c.clone()),
                None => None,
            };
            Ok(ToolQuery::ListRecent { category, limit: resolve_limit(args.limit) })
        },
        ToolKind::GetArticle => match args.id {
            Some(id) => Ok(ToolQuery::GetArticle { id }),
            None => Err(String::from_str("missing required integer `id` argument")),
        },
        ToolKind::GetMarketSnapshot => Ok(ToolQuery::MarketSnapshot),
        ToolKind::GetDerivatives => {
            let symbol = match &args.symbol {
                Some(s) => symbol_arg(Some(s.as_str())),
                None => symbol_arg(None),
            };
            match symbol {
                Some(symbol) => Ok(ToolQuery::DerivativesHistory { symbol, limit: resolve_limit(args.limit) }),
                None => Ok(ToolQuery::LatestDerivatives),
            }
        },
    }
}

/// The message a `get_article` call gets for an id with no article.
pub fn no_article_message(id: i64) -> (m: String)
    ensures
        m@ == "no article with id "@ + decimal(id as int),
{
    String::from_str("no article with id ").concat(decimal_i64(id).as_str())
}

/// The result a failed tool call returns to the model: a JSON object whose
/// `error` field holds the message, so the model can recover instead of the
/// turn aborting.
pub fn error_payload(message: &str) -> (r: String)
    ensures
        r@ == "{\"error\":"@ + json_string(message@) + "}"@,
{
    let quoted = json_quote(message);
    String::from_str("{\"error\":").concat(quoted.as_str()).concat("}")
}

} // verus!

//! What the query endpoint decides: whether a question mentions a URL, the
//! prompt that asks the answering side, the reply for each lookup outcome,
//! and the reply once the answering side has answered or failed.
//!
//! The endpoint itself (lookup, broadcast, wait) runs outside; it hands the
//! outcome of each step to these functions.
use vstd::prelude::*;
use crate::answer::{extract_answer_from_json, extract_answer_spec};
use crate::outside::regex_is_match;
use crate::text::{concat, is_white_spec, occurs_at, push_text, str_equal};
use crate::types::{
    error_view, success_view, QueryData, QueryDataView, QueryRequest, QueryResponse,
    QueryResponseView,
};

verus! {

/// A URL: a scheme of `http` or `https`, then at least one non-space character.
pub const URL_PATTERN: &'static str = "https?://[^\\s]+";

/// The answer given for a question that mentions a URL and is not in the cache.
pub const URL_NOTICE: &'static str = "题目中含有URL，无法直接展示";

/// The client address used when the request names none.
pub const DEFAULT_CLIENT_IP: &'static str = "127.0.0.1";

/// How long, in seconds, a wait may see no activity before it gives up.
pub const MODEL_WAIT_SECONDS: u64 = 30;

pub const STATUS_OK: u16 = 200;

pub const STATUS_TIMEOUT: u16 = 408;

pub const STATUS_SERVER_ERROR: u16 = 500;

pub const DATABASE_ERROR_PREFIX: &'static str = "Database error: ";

pub const MODEL_FAILED_PREFIX: &'static str = "Model call failed: ";

/// The prompt for a thinking model, or for any model when analysis is off.
pub const BRIEF_PROMPT: &'static str = "请分析我给出的问题，将答案用JSON的格式回答我，格式{\"answer\":\"答案\"}。如果是选择题，请回答内容而非选项。题目：";

/// The prompt for a non-thinking model with analysis on: it asks for the reasoning first.
pub const DETAILED_PROMPT: &'static str = "请先分析我给出的问题，给出简要的思考过程，如果问题比较复杂，给出详细思考过程。最后将答案用JSON的格式回答我，格式{\"answer\":\"答案\"}。如果是选择题，请回答内容而非选项。题目：";

pub const OPTIONS_LABEL: &'static str = "，选项：";

pub const TYPE_LABEL: &'static str = "，题目类型：";

pub const MULTIPLE_HINT: &'static str = "。这是多选题，请你将答案用###连接";

pub const COMPLETION_HINT: &'static str = "。这是填空题，如果有多个空，使用###连接";

pub const JUDGEMENT_HINT: &'static str = "。这是判断题，请你只回答\\\"正确\\\"或\\\"错误\\\"，不要添加任何其他内容";

/// `text` holds a URL: `http://` or `https://` followed by a character that
/// is not white space.
pub open spec fn mentions_url(text: Seq<char>) -> bool {
    exists|i: int|
        {
            ||| (occurs_at(text, "http://"@, i) && i + 7 < text.len() && !is_white_spec(text[i + 7]))
            ||| (occurs_at(text, "https://"@, i) && i + 8 < text.len() && !is_white_spec(
                text[i + 8],
            ))
        }
}

/// Whether `text` holds a URL.
pub fn contains_url(text: &str) -> (r: bool)
    ensures
        r == mentions_url(text@),
{
    regex_is_match(URL_PATTERN, text)
}

pub open spec fn has_url_spec(title: Seq<char>, options: Option<Seq<char>>) -> bool {
    mentions_url(title) || (options is Some && mentions_url(options->0))
}

/// Whether the question or its options hold a URL.
pub fn request_has_url(request: &QueryRequest) -> (r: bool)
    ensures
        r == has_url_spec(request.title@, request.options.deep_view()),
{
    if contains_url(request.title.as_str()) {
        return true;
    }
    match &request.options {
        Some(o) => contains_url(o.as_str()),
        None => false,
    }
}

/// The name of a question type as the prompt gives it; an unknown type keeps its own name.
pub open spec fn question_type_name_spec(t: Seq<char>) -> Seq<char> {
    if t == "single"@ {
        "单选"@
    } else if t == "multiple"@ {
        "多选"@
    } else if t == "judgement"@ {
        "判断"@
    } else if t == "completion"@ {
        "填空"@
    } else {
        t
    }
}

/// The extra instruction for a question type, empty for most.
pub open spec fn question_type_hint_spec(t: Seq<char>) -> Seq<char> {
    if t == "multiple"@ {
        MULTIPLE_HINT@
    } else if t == "completion"@ {
        COMPLETION_HINT@
    } else if t == "judgement"@ {
        JUDGEMENT_HINT@
    } else {
        Seq::empty()
    }
}

pub fn question_type_name(t: &str) -> (r: String)
    ensures
        r@ == question_type_name_spec(t@),
{
    if str_equal(t, "single") {
        "单选".to_owned()
    } else if str_equal(t, "multiple") {
        "多选".to_owned()
    } else if str_equal(t, "judgement") {
        "判断".to_owned()
    } else if str_equal(t, "completion") {
        "填空".to_owned()
    } else {
        t.to_owned()
    }
}

pub fn question_type_hint(t: &str) -> (r: &'static str)
    ensures
        r@ == question_type_hint_spec(t@),
{
    if str_equal(t, "multiple") {
        MULTIPLE_HINT
    } else if str_equal(t, "completion") {
        COMPLETION_HINT
    } else if str_equal(t, "judgement") {
        JUDGEMENT_HINT
    } else {
        proof {
            reveal_strlit("");
        }
        ""
    }
}

/// The prompt that asks the answering side: the lead-in for the model kind,
/// the question, the options when there are any, and the question type with
/// its instruction when a type is given.
pub open spec fn model_query_spec(
    title: Seq<char>,
    options: Option<Seq<char>>,
    query_type: Option<Seq<char>>,
    is_thinking_model: bool,
    analysis_enabled: bool,
) -> Seq<char> {
    let lead = if !is_thinking_model && analysis_enabled {
        DETAILED_PROMPT@
    } else {
        BRIEF_PROMPT@
    };
    let opts = if options is Some && options->0.len() > 0 {
        OPTIONS_LABEL@ + options->0
    } else {
        Seq::empty()
    };
    let kind = if query_type is Some && query_type->0.len() > 0 {
        TYPE_LABEL@ + question_type_name_spec(query_type->0) + question_type_hint_spec(query_type->0)
    } else {
        Seq::empty()
    };
    lead + title + opts + kind
}

/// Builds the prompt for `request`.
pub fn build_model_query(request: &QueryRequest, is_thinking_model: bool, analysis_enabled: bool) -> (r:
    String)
    ensures
        r@ == model_query_spec(
            request.title@,
            request.options.deep_view(),
            request.query_type.deep_view(),
            is_thinking_model,
            analysis_enabled,
        ),
{
    let lead = if !is_thinking_model && analysis_enabled {
        DETAILED_PROMPT
    } else {
        BRIEF_PROMPT
    };
    let mut q = concat(lead, request.title.as_str());
    let ghost base = q@;
    if let Some(o) = &request.options {
        if !o.as_str().is_empty() {
            push_text(&mut q, OPTIONS_LABEL);
            push_text(&mut q, o.as_str());
            assert(q@ == base + (OPTIONS_LABEL@ + o@));
        }
    }
    let ghost with_opts = q@;
    if let Some(t) = &request.query_type {
        if !t.as_str().is_empty() {
            let name = question_type_name(t.as_str());
            push_text(&mut q, TYPE_LABEL);
            push_text(&mut q, name.as_str());
            push_text(&mut q, question_type_hint(t.as_str()));
            assert(q@ == with_opts + (TYPE_LABEL@ + question_type_name_spec(t@) + question_type_hint_spec(t@)));
        }
    }
    proof {
        reveal_strlit("");
    }
    assert(with_opts == base + (if request.options.deep_view() is Some
        && request.options.deep_view()->0.len() > 0 {
        OPTIONS_LABEL@ + request.options.deep_view()->0
    } else {
        Seq::<char>::empty()
    }));
    q
}

/// What the endpoint does next.
#[derive(Debug)]
pub enum QueryPlan {
    /// Reply at once with this status and body.
    Reply(u16, QueryResponse),
    /// Broadcast an ask with this prompt and wait for the answer.
    AskModel(String),
}

pub enum QueryPlanView {
    Reply(u16, QueryResponseView),
    AskModel(Seq<char>),
}

impl View for QueryPlan {
    type V = QueryPlanView;

    open spec fn view(&self) -> QueryPlanView {
        match self {
            QueryPlan::Reply(s, r) => QueryPlanView::Reply(*s, r@),
            QueryPlan::AskModel(p) => QueryPlanView::AskModel(p@),
        }
    }
}

/// A cache lookup's outcome as mathematical values.
pub open spec fn lookup_view(lookup: Result<Option<(String, String, bool)>, String>) -> Result<
    Option<(Seq<char>, Seq<char>, bool)>,
    Seq<char>,
> {
    match lookup {
        Ok(Some((q, a, ai))) => Ok(Some((q@, a@, ai))),
        Ok(None) => Ok(None),
        Err(e) => Err(e@),
    }
}

/// The next step for a question, given the cache lookup's outcome and whether
/// the question holds a URL: a cached answer is returned as it is; a lookup
/// error is a server error; a question with a URL gets a notice instead of an
/// answer; any other question is asked.
pub open spec fn plan_given_url(
    title: Seq<char>,
    options: Option<Seq<char>>,
    query_type: Option<Seq<char>>,
    lookup: Result<Option<(Seq<char>, Seq<char>, bool)>, Seq<char>>,
    has_url: bool,
    is_thinking_model: bool,
    analysis_enabled: bool,
) -> QueryPlanView {
    match lookup {
        Err(e) => QueryPlanView::Reply(STATUS_SERVER_ERROR, error_view(DATABASE_ERROR_PREFIX@ + e)),
        Ok(Some((q, a, ai))) => QueryPlanView::Reply(
            STATUS_OK,
            success_view(QueryDataView { question: q, answer: a, is_ai: ai }),
        ),
        Ok(None) => if has_url {
            QueryPlanView::Reply(
                STATUS_OK,
                success_view(QueryDataView { question: title, answer: URL_NOTICE@, is_ai: false }),
            )
        } else {
            QueryPlanView::AskModel(
                model_query_spec(title, options, query_type, is_thinking_model, analysis_enabled),
            )
        },
    }
}

/// The next step for a question, given the cache lookup's outcome.
pub open spec fn plan_spec(
    title: Seq<char>,
    options: Option<Seq<char>>,
    query_type: Option<Seq<char>>,
    lookup: Result<Option<(Seq<char>, Seq<char>, bool)>, Seq<char>>,
    is_thinking_model: bool,
    analysis_enabled: bool,
) -> QueryPlanView {
    plan_given_url(
        title,
        options,
        query_type,
        lookup,
        has_url_spec(title, options),
        is_thinking_model,
        analysis_enabled,
    )
}

/// Decides the next step for `request` once the cache has been looked up,
/// given whether the question or its options hold a URL.
pub fn decide_query(
    request: &QueryRequest,
    lookup: Result<Option<(String, String, bool)>, String>,
    has_url: bool,
    is_thinking_model: bool,
    analysis_enabled: bool,
) -> (r: QueryPlan)
    ensures
        r@ == plan_given_url(
            request.title@,
            request.options.deep_view(),
            request.query_type.deep_view(),
            lookup_view(lookup),
            has_url,
            is_thinking_model,
            analysis_enabled,
        ),
{
    match lookup {
        Ok(Some((question, answer, is_ai))) => {
            QueryPlan::Reply(STATUS_OK, QueryResponse::success(QueryData { question, answer, is_ai }))
        },
        Ok(None) => {
            if has_url {
                let data = QueryData {
                    question: request.title.clone(),
                    answer: URL_NOTICE.to_owned(),
                    is_ai: false,
                };
                QueryPlan::Reply(STATUS_OK, QueryResponse::success(data))
            } else {
                QueryPlan::AskModel(build_model_query(request, is_thinking_model, analysis_enabled))
            }
        },
        Err(e) => {
            let message = concat(DATABASE_ERROR_PREFIX, e.as_str());
            QueryPlan::Reply(STATUS_SERVER_ERROR, QueryResponse::error(message))
        },
    }
}

/// Decides the next step for `request` once the cache has been looked up.
pub fn plan_query(
    request: &QueryRequest,
    lookup: Result<Option<(String, String, bool)>, String>,
    is_thinking_model: bool,
    analysis_enabled: bool,
) -> (r: QueryPlan)
    ensures
        r@ == plan_spec(
            request.title@,
            request.options.deep_view(),
            request.query_type.deep_view(),
            lookup_view(lookup),
            is_thinking_model,
            analysis_enabled,
        ),
{
    let has_url = request_has_url(request);
    decide_query(request, lookup, has_url, is_thinking_model, analysis_enabled)
}

/// The reply once the wait for the answering side is over: the answer read
/// out of its reply, or a timeout error.
pub fn finish_model_query(title: &String, outcome: Result<String, String>) -> (r: (
    u16,
    QueryResponse,
))
    ensures
        outcome is Ok ==> r.0 == STATUS_OK && r.1@ == success_view(
            QueryDataView {
                question: title@,
                answer: extract_answer_spec(outcome->Ok_0@),
                is_ai: true,
            },
        ),
        outcome is Err ==> r.0 == STATUS_TIMEOUT && r.1@ == error_view(
            MODEL_FAILED_PREFIX@ + outcome->Err_0@,
        ),
{
    match outcome {
        Ok(content) => {
            let data = QueryData {
                question: title.clone(),
                answer: extract_answer_from_json(content.as_str()),
                is_ai: true,
            };
            (STATUS_OK, QueryResponse::success(data))
        },
        Err(e) => (STATUS_TIMEOUT, QueryResponse::error(concat(MODEL_FAILED_PREFIX, e.as_str()))),
    }
}

/// The client's address: `x-forwarded-for` if given, else `x-real-ip`, else the loopback address.
pub fn client_ip(forwarded_for: Option<String>, real_ip: Option<String>) -> (r: String)
    ensures
        forwarded_for is Some ==> r@ == forwarded_for->0@,
        forwarded_for is None && real_ip is Some ==> r@ == real_ip->0@,
        forwarded_for is None && real_ip is None ==> r@ == DEFAULT_CLIENT_IP@,
{
    match forwarded_for {
        Some(f) => f,
        None => match real_ip {
            Some(x) => x,
            None => DEFAULT_CLIENT_IP.to_owned(),
        },
    }
}

/// The cache's containment pattern for a question: `%title%`.
pub fn search_pattern(title: &str) -> (r: String)
    ensures
        r@ == "%"@ + title@ + "%"@,
{
    let mut p = concat("%", title);
    push_text(&mut p, "%");
    p
}

} // verus!

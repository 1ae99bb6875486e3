//! Page queries. The screen sends a condition object and this module turns it into SQL
//! with bound parameters; pages follow a cursor instead of a large OFFSET.

use vstd::prelude::*;

use crate::compile::byte_len;
use crate::error::EngineError;
use crate::ext::{regex_new, regex_new_result, str_chars};
use crate::semantic::{i64_value, parse_i64};
use crate::store::{log_kind_text, LogKind};
use crate::text::{chars_to_string, push_str, trim_chars, trimmed};

verus! {

/// Largest page.
pub const MAX_PAGE_SIZE: u32 = 1000;
/// Approximate byte limit of a page response.
pub const MAX_PAGE_BYTES: usize = 4 * 1024 * 1024;
/// Largest export page; larger than a screen page since it streams straight to disk.
pub const MAX_EXPORT_PAGE_SIZE: u32 = 20_000;
/// Longest search text or condition value, in bytes.
pub const MAX_SEARCH_BYTES: usize = 1024;
/// Most nodes of a condition expression.
pub const MAX_EXPR_NODES: usize = 256;
/// Deepest nesting of a condition expression.
pub const MAX_EXPR_DEPTH: usize = 16;

/// A bound SQL parameter.
#[derive(Debug, Clone, PartialEq, Eq)]
pub enum SqlValue {
    /// 64-bit integer.
    BigInt(i64),
    /// 32-bit integer.
    Int(i32),
    /// Text.
    Text(String),
}

/// A parameter as a value.
pub ghost enum ParamView {
    BigInt(i64),
    Int(i32),
    Text(Seq<char>),
}

/// The value of a parameter.
pub open spec fn param_view(v: SqlValue) -> ParamView {
    match v {
        SqlValue::BigInt(n) => ParamView::BigInt(n),
        SqlValue::Int(n) => ParamView::Int(n),
        SqlValue::Text(s) => ParamView::Text(s@),
    }
}

/// The values of a parameter list.
pub open spec fn params_view(v: Seq<SqlValue>) -> Seq<ParamView> {
    v.map_values(|p: SqlValue| param_view(p))
}

/// The fields a condition can look at. The SQL is assembled as text, so a field can only
/// be one of these.
#[derive(Debug, Clone, Copy, PartialEq, Eq)]
pub enum CondField {
    /// Status code (integer).
    Status,
    /// Bytes sent (integer).
    BytesSent,
    /// Client IP.
    ClientIp,
    /// Method.
    Method,
    /// Request target (path and query).
    RequestTarget,
    /// Protocol.
    Protocol,
    /// Referrer.
    Referrer,
    /// User agent.
    UserAgent,
    /// The extension fields' JSON text (level and message of error logs and the like).
    Extra,
    /// Error log level (from the extension fields).
    Level,
    /// Error log message (from the extension fields).
    Message,
}

/// The SQL expression of each field.
pub open spec fn column_text(f: CondField) -> Seq<char> {
    match f {
        CondField::Status => "status"@,
        CondField::BytesSent => "bytes_sent"@,
        CondField::ClientIp => "client_ip"@,
        CondField::Method => "method"@,
        CondField::RequestTarget => "request_target"@,
        CondField::Protocol => "protocol"@,
        CondField::Referrer => "referrer"@,
        CondField::UserAgent => "user_agent"@,
        CondField::Extra => "extra_json"@,
        CondField::Level => "json_extract_string(extra_json, '$.level')"@,
        CondField::Message => "json_extract_string(extra_json, '$.message')"@,
    }
}

/// The name of each field in error messages (SQL never reaches the screen).
pub open spec fn label_text(f: CondField) -> Seq<char> {
    match f {
        CondField::Extra => "extra"@,
        CondField::Level => "level"@,
        CondField::Message => "message"@,
        _ => column_text(f),
    }
}

impl CondField {
    /// The SQL expression of the field.
    pub fn column(self) -> (r: &'static str)
        ensures
            r@ == column_text(self),
    {
        match self {
            CondField::Status => "status",
            CondField::BytesSent => "bytes_sent",
            CondField::ClientIp => "client_ip",
            CondField::Method => "method",
            CondField::RequestTarget => "request_target",
            CondField::Protocol => "protocol",
            CondField::Referrer => "referrer",
            CondField::UserAgent => "user_agent",
            CondField::Extra => "extra_json",
            CondField::Level => "json_extract_string(extra_json, '$.level')",
            CondField::Message => "json_extract_string(extra_json, '$.message')",
        }
    }

    /// The field's name in messages.
    pub fn label(self) -> (r: &'static str)
        ensures
            r@ == label_text(self),
    {
        match self {
            CondField::Extra => "extra",
            CondField::Level => "level",
            CondField::Message => "message",
            _ => self.column(),
        }
    }

    /// Whether the field is an integer column.
    pub fn is_numeric(self) -> (r: bool)
        ensures
            r == (self == CondField::Status || self == CondField::BytesSent),
    {
        match self {
            CondField::Status | CondField::BytesSent => true,
            _ => false,
        }
    }
}

/// Condition operators. Text operators apply to text columns, size comparisons to
/// integer columns only.
#[derive(Debug, Clone, Copy, PartialEq, Eq)]
pub enum CondOp {
    /// Equal.
    Eq,
    /// Not equal.
    Ne,
    /// Greater.
    Gt,
    /// Greater or equal.
    Gte,
    /// Less.
    Lt,
    /// Less or equal.
    Lte,
    /// Contains (case sensitive).
    Contains,
    /// Contains (case insensitive).
    Icontains,
    /// Prefix.
    StartsWith,
    /// Suffix.
    EndsWith,
    /// Regular expression (RE2).
    Regex,
    /// No value (NULL).
    IsNull,
}

/// A rule condition: and / or / not over single conditions, with limits on size and depth.
#[derive(Debug, PartialEq, Eq)]
pub enum FilterExpr {
    /// All hold.
    And {
        /// Items.
        items: Vec<FilterExpr>,
    },
    /// One holds.
    Or {
        /// Items.
        items: Vec<FilterExpr>,
    },
    /// Negation.
    Not {
        /// Item.
        item: Box<FilterExpr>,
    },
    /// A single condition.
    Cond {
        /// Column.
        field: CondField,
        /// Operator.
        op: CondOp,
        /// Value. Size comparisons on integer columns need a decimal integer; `IsNull`
        /// ignores it.
        value: String,
    },
    /// Always holds.
    True,
}

/// Two expressions say the same thing (lists compared element by element).
pub open spec fn same_expr(a: FilterExpr, b: FilterExpr) -> bool
    decreases a, 0nat,
{
    match a {
        FilterExpr::And { items } => b matches FilterExpr::And { items: c } && items@.len() == c@.len()
            && same_exprs(items@, c@, items@.len()),
        FilterExpr::Or { items } => b matches FilterExpr::Or { items: c } && items@.len() == c@.len()
            && same_exprs(items@, c@, items@.len()),
        FilterExpr::Not { item } => b matches FilterExpr::Not { item: j } && same_expr(*item, *j),
        FilterExpr::Cond { field, op, value } => b matches FilterExpr::Cond { field: f, op: o, value: v }
            && f == field && o == op && v == value,
        FilterExpr::True => b is True,
    }
}

/// The first `k` expressions of two lists say the same thing.
pub open spec fn same_exprs(a: Seq<FilterExpr>, b: Seq<FilterExpr>, k: nat) -> bool
    decreases a, k,
{
    if k == 0 || k > a.len() {
        true
    } else {
        same_exprs(a, b, (k - 1) as nat) && same_expr(a[k - 1], b[k - 1])
    }
}

impl Clone for FilterExpr {
    fn clone(&self) -> (r: Self)
        ensures
            same_expr(*self, r),
        decreases self,
    {
        match self {
            FilterExpr::And { items } => FilterExpr::And { items: clone_exprs(items) },
            FilterExpr::Or { items } => FilterExpr::Or { items: clone_exprs(items) },
            FilterExpr::Not { item } => FilterExpr::Not { item: Box::new((**item).clone()) },
            FilterExpr::Cond { field, op, value } => FilterExpr::Cond { field: *field, op: *op, value: value.clone() },
            FilterExpr::True => FilterExpr::True,
        }
    }
}

proof fn lemma_same_exprs_extend(a: Seq<FilterExpr>, b: Seq<FilterExpr>, x: FilterExpr, k: nat)
    requires
        b.len() < a.len(),
        k <= b.len() + 1,
        k <= b.len() ==> same_exprs(a, b, k),
        k == b.len() + 1 ==> same_exprs(a, b, b.len()) && same_expr(a[b.len() as int], x),
    ensures
        same_exprs(a, b.push(x), k),
    decreases k,
{
    if k > 0 && k <= b.len() {
        lemma_same_exprs_extend(a, b, x, (k - 1) as nat);
        assert(b.push(x)[k - 1] == b[k - 1]);
    } else if k == b.len() + 1 && k > 0 {
        lemma_same_exprs_extend(a, b, x, (k - 1) as nat);
        assert(b.push(x)[k - 1] == x);
    }
}

/// A copy of a list of expressions.
pub fn clone_exprs(v: &Vec<FilterExpr>) -> (r: Vec<FilterExpr>)
    ensures
        r@.len() == v@.len(),
        same_exprs(v@, r@, v@.len()),
    decreases v,
{
    let mut out: Vec<FilterExpr> = Vec::new();
    let mut i: usize = 0;
    while i < v.len()
        invariant
            i <= v.len(),
            out@.len() == i,
            forall|k: nat| k <= i ==> #[trigger] same_exprs(v@, out@, k),
        decreases v.len() - i,
    {
        proof {
            assert(decreases_to!(v => v@[i as int]));
        }
        let e = v[i].clone();
        let ghost before = out@;
        out.push(e);
        proof {
            assert forall|k: nat| k <= i + 1 implies #[trigger] same_exprs(v@, out@, k) by {
                lemma_same_exprs_extend(v@, before, e, k);
            }
        }
        i = i + 1;
    }
    out
}

/// Query conditions. Every value is bound, never spliced into the SQL.
#[derive(Debug, Clone, Default, PartialEq, Eq)]
pub struct LogFilter {
    /// Job ID; `None` for all.
    pub job_id: Option<i64>,
    /// Source ID.
    pub source_id: Option<i64>,
    /// Start time (UTC microseconds, inclusive). A time filter leaves out rows without time.
    pub time_from_micros: Option<i64>,
    /// End time (UTC microseconds, exclusive).
    pub time_to_micros: Option<i64>,
    /// Status code.
    pub status: Option<u16>,
    /// Status class (2 means 200 to 299).
    pub status_class: Option<u8>,
    /// Client IP.
    pub client_ip: Option<String>,
    /// Method.
    pub method: Option<String>,
    /// Substring of the request target (case sensitive).
    pub target_contains: Option<String>,
    /// Regular expression on the request target (RE2; `(?i)` ignores case).
    pub target_regex: Option<String>,
    /// Log kind; `None` for both.
    pub log_kind: Option<LogKind>,
    /// Rule expression, joined to the conditions above with AND.
    pub expr: Option<FilterExpr>,
    /// Bookmarked rows only.
    pub bookmarked_only: bool,
    /// Active result versions only.
    pub active_only: bool,
}

/// What a condition emits: SQL text with `?` placeholders and the parameters, or why it
/// is refused.
pub open spec fn cond_emit(field: CondField, op: CondOp, value: Seq<char>) -> Result<(Seq<char>, Seq<ParamView>), Seq<char>> {
    let col = column_text(field);
    let label = label_text(field);
    let numeric = field == CondField::Status || field == CondField::BytesSent;
    if byte_len(value) > MAX_SEARCH_BYTES {
        Err("조건 값이 상한을 넘음"@)
    } else {
        match op {
            CondOp::IsNull => Ok((col + " IS NULL"@, seq![])),
            CondOp::Eq | CondOp::Ne | CondOp::Gt | CondOp::Gte | CondOp::Lt | CondOp::Lte => {
                let sym = match op {
                    CondOp::Eq => "="@,
                    CondOp::Ne => "<>"@,
                    CondOp::Gt => ">"@,
                    CondOp::Gte => ">="@,
                    CondOp::Lt => "<"@,
                    _ => "<="@,
                };
                if numeric {
                    match i64_value(trimmed(value)) {
                        Some(n) => Ok((col + " "@ + sym + " ?"@, seq![ParamView::BigInt(n)])),
                        None => Err(label + " 비교 값은 정수여야 함"@),
                    }
                } else if !(op == CondOp::Eq || op == CondOp::Ne) {
                    Err(label + "에는 크기 비교를 쓸 수 없음"@)
                } else {
                    Ok((col + " "@ + sym + " ?"@, seq![ParamView::Text(value)]))
                }
            },
            _ => if numeric {
                Err(label + "에는 문자열 연산을 쓸 수 없음"@)
            } else {
                match op {
                    CondOp::Contains => Ok(("contains("@ + col + ", ?)"@, seq![ParamView::Text(value)])),
                    CondOp::Icontains => Ok(("contains(lower("@ + col + "), lower(?))"@, seq![ParamView::Text(value)])),
                    CondOp::StartsWith => Ok(("starts_with("@ + col + ", ?)"@, seq![ParamView::Text(value)])),
                    CondOp::EndsWith => Ok(("ends_with("@ + col + ", ?)"@, seq![ParamView::Text(value)])),
                    _ => match regex_new_result(value) {
                        Err(e) => Err("조건 정규식 오류: "@ + e),
                        Ok(_) => Ok(("regexp_matches("@ + col + ", ?)"@, seq![ParamView::Text(value)])),
                    },
                }
            },
        }
    }
}

/// What an expression emits after `nodes` nodes at nesting `depth`: SQL text, parameters
/// and the node count after it, or why it is refused.
pub open spec fn expr_emit(e: FilterExpr, nodes: nat, depth: nat) -> Result<(Seq<char>, Seq<ParamView>, nat), Seq<char>>
    decreases e, 0nat,
{
    let n1 = nodes + 1;
    if n1 > MAX_EXPR_NODES {
        Err("조건식 노드가 상한 256개를 넘음"@)
    } else if depth > MAX_EXPR_DEPTH {
        Err("조건식 중첩이 너무 깊음"@)
    } else {
        match e {
            FilterExpr::True => Ok(("TRUE"@, seq![], n1)),
            FilterExpr::And { items } => if items@.len() == 0 {
                Ok(("TRUE"@, seq![], n1))
            } else {
                match items_emit(items@, items@.len(), " AND "@, n1, depth + 1) {
                    Err(m) => Err(m),
                    Ok((s, ps, n)) => Ok(("("@ + s + ")"@, ps, n)),
                }
            },
            FilterExpr::Or { items } => if items@.len() == 0 {
                Ok(("TRUE"@, seq![], n1))
            } else {
                match items_emit(items@, items@.len(), " OR "@, n1, depth + 1) {
                    Err(m) => Err(m),
                    Ok((s, ps, n)) => Ok(("("@ + s + ")"@, ps, n)),
                }
            },
            FilterExpr::Not { item } => match expr_emit(*item, n1, depth + 1) {
                Err(m) => Err(m),
                Ok((s, ps, n)) => Ok(("(NOT "@ + s + ")"@, ps, n)),
            },
            FilterExpr::Cond { field, op, value } => match cond_emit(field, op, value@) {
                Err(m) => Err(m),
                Ok((s, ps)) => Ok((s, ps, n1)),
            },
        }
    }
}

/// What the first `k` items emit, joined by `joiner`.
pub open spec fn items_emit(items: Seq<FilterExpr>, k: nat, joiner: Seq<char>, nodes: nat, depth: nat)
    -> Result<(Seq<char>, Seq<ParamView>, nat), Seq<char>>
    decreases items, k,
{
    if k == 0 || k > items.len() {
        Ok((seq![], seq![], nodes))
    } else {
        match items_emit(items, (k - 1) as nat, joiner, nodes, depth) {
            Err(m) => Err(m),
            Ok((s, ps, n)) => match expr_emit(items[k - 1], n, depth) {
                Err(m) => Err(m),
                Ok((s2, ps2, n2)) => Ok((s + (if k > 1 { joiner } else { seq![] }) + s2, ps + ps2, n2)),
            },
        }
    }
}

/// Once the first items fail, more items fail the same way.
proof fn lemma_items_err(items: Seq<FilterExpr>, k: nat, n: nat, joiner: Seq<char>, nodes: nat, depth: nat)
    requires
        k <= n <= items.len(),
        items_emit(items, k, joiner, nodes, depth) is Err,
    ensures
        items_emit(items, n, joiner, nodes, depth) == items_emit(items, k, joiner, nodes, depth),
    decreases n - k,
{
    if n > k {
        lemma_items_err(items, k, (n - 1) as nat, joiner, nodes, depth);
    }
}

/// The successful node count never exceeds the limit and never goes down.
proof fn lemma_expr_nodes(e: FilterExpr, nodes: nat, depth: nat)
    ensures
        expr_emit(e, nodes, depth) matches Ok((_, _, n)) ==> nodes < n <= MAX_EXPR_NODES,
    decreases e, 0nat,
{
    match e {
        FilterExpr::And { items } => {
            if items@.len() > 0 {
                lemma_items_nodes(items@, items@.len(), " AND "@, nodes + 1, depth + 1);
            }
        },
        FilterExpr::Or { items } => {
            if items@.len() > 0 {
                lemma_items_nodes(items@, items@.len(), " OR "@, nodes + 1, depth + 1);
            }
        },
        FilterExpr::Not { item } => {
            lemma_expr_nodes(*item, nodes + 1, depth + 1);
        },
        _ => {},
    }
}

proof fn lemma_items_nodes(items: Seq<FilterExpr>, k: nat, joiner: Seq<char>, nodes: nat, depth: nat)
    ensures
        items_emit(items, k, joiner, nodes, depth) matches Ok((_, _, n)) ==> nodes <= n
            && (nodes <= MAX_EXPR_NODES ==> n <= MAX_EXPR_NODES),
    decreases items, k,
{
    if k > 0 && k <= items.len() {
        lemma_items_nodes(items, (k - 1) as nat, joiner, nodes, depth);
        if let Ok((_, _, n)) = items_emit(items, (k - 1) as nat, joiner, nodes, depth) {
            lemma_expr_nodes(items[k - 1], n, depth);
        }
    }
}

/// Appends a parameter.
fn push_param(params: &mut Vec<SqlValue>, v: SqlValue)
    ensures
        params_view(final(params)@) == params_view(old(params)@).push(param_view(v)),
{
    let ghost before = params@;
    params.push(v);
    assert(params_view(params@) =~= params_view(before).push(param_view(v)));
}

/// Emits a single condition.
fn cond_sql(field: CondField, op: CondOp, value: &String, out: &mut Vec<char>, params: &mut Vec<SqlValue>) -> (r: Result<(), EngineError>)
    ensures
        match cond_emit(field, op, value@) {
            Ok((s, ps)) => r is Ok && final(out)@ == old(out)@ + s && params_view(final(params)@) == params_view(old(params)@) + ps,
            Err(m) => r matches Err(EngineError::Query(x)) && x@ == m,
        },
{
    let ghost p0 = params_view(params@);
    if value.as_str().len() > MAX_SEARCH_BYTES {
        return Err(EngineError::Query("조건 값이 상한을 넘음".to_owned()));
    }
    let col = field.column();
    let label = field.label();
    let numeric = field.is_numeric();
    match op {
        CondOp::IsNull => {
            push_str(out, col);
            push_str(out, " IS NULL");
            assert(params_view(params@) =~= p0 + seq![]);
        },
        CondOp::Eq | CondOp::Ne | CondOp::Gt | CondOp::Gte | CondOp::Lt | CondOp::Lte => {
            let sym = match op {
                CondOp::Eq => "=",
                CondOp::Ne => "<>",
                CondOp::Gt => ">",
                CondOp::Gte => ">=",
                CondOp::Lt => "<",
                _ => "<=",
            };
            if numeric {
                let c = str_chars(value.as_str());
                let t = trim_chars(&c);
                let ts = chars_to_string(&t);
                match parse_i64(ts.as_str()) {
                    Some(n) => {
                        push_str(out, col);
                        push_str(out, " ");
                        push_str(out, sym);
                        push_str(out, " ?");
                        push_param(params, SqlValue::BigInt(n));
                        assert(params_view(params@) =~= p0 + seq![ParamView::BigInt(n)]);
                    },
                    None => {
                        let mut m: Vec<char> = Vec::new();
                        push_str(&mut m, label);
                        push_str(&mut m, " 비교 값은 정수여야 함");
                        return Err(EngineError::Query(chars_to_string(&m)));
                    },
                }
            } else {
                let eq_or_ne = match op {
                    CondOp::Eq | CondOp::Ne => true,
                    _ => false,
                };
                if !eq_or_ne {
                    let mut m: Vec<char> = Vec::new();
                    push_str(&mut m, label);
                    push_str(&mut m, "에는 크기 비교를 쓸 수 없음");
                    return Err(EngineError::Query(chars_to_string(&m)));
                }
                push_str(out, col);
                push_str(out, " ");
                push_str(out, sym);
                push_str(out, " ?");
                push_param(params, SqlValue::Text(value.clone()));
                assert(params_view(params@) =~= p0 + seq![ParamView::Text(value@)]);
            }
        },
        _ => {
            if numeric {
                let mut m: Vec<char> = Vec::new();
                push_str(&mut m, label);
                push_str(&mut m, "에는 문자열 연산을 쓸 수 없음");
                return Err(EngineError::Query(chars_to_string(&m)));
            }
            match op {
                CondOp::Contains => {
                    push_str(out, "contains(");
                    push_str(out, col);
                    push_str(out, ", ?)");
                },
                CondOp::Icontains => {
                    push_str(out, "contains(lower(");
                    push_str(out, col);
                    push_str(out, "), lower(?))");
                },
                CondOp::StartsWith => {
                    push_str(out, "starts_with(");
                    push_str(out, col);
                    push_str(out, ", ?)");
                },
                CondOp::EndsWith => {
                    push_str(out, "ends_with(");
                    push_str(out, col);
                    push_str(out, ", ?)");
                },
                _ => {
                    match regex_new(value.as_str()) {
                        Err(e) => {
                            let mut m: Vec<char> = Vec::new();
                            push_str(&mut m, "조건 정규식 오류: ");
                            push_str(&mut m, e.as_str());
                            return Err(EngineError::Query(chars_to_string(&m)));
                        },
                        Ok(_) => {},
                    }
                    push_str(out, "regexp_matches(");
                    push_str(out, col);
                    push_str(out, ", ?)");
                },
            }
            push_param(params, SqlValue::Text(value.clone()));
            assert(params_view(params@) =~= p0 + seq![ParamView::Text(value@)]);
        },
    }
    Ok(())
}

/// Emits a condition expression. Every value is bound; column text comes only from
/// [`CondField`].
pub fn expr_sql(e: &FilterExpr, out: &mut Vec<char>, params: &mut Vec<SqlValue>, nodes: &mut usize, depth: usize)
    -> (r: Result<(), EngineError>)
    requires
        *old(nodes) <= MAX_EXPR_NODES,
        depth <= MAX_EXPR_DEPTH + 1,
    ensures
        match expr_emit(*e, *old(nodes) as nat, depth as nat) {
            Ok((s, ps, n)) => r is Ok && final(out)@ == old(out)@ + s
                && params_view(final(params)@) == params_view(old(params)@) + ps && *final(nodes) == n,
            Err(m) => r matches Err(EngineError::Query(x)) && x@ == m,
        },
    decreases e, 0nat,
{
    let ghost n0 = *nodes as nat;
    *nodes = *nodes + 1;
    if *nodes > MAX_EXPR_NODES {
        return Err(EngineError::Query("조건식 노드가 상한 256개를 넘음".to_owned()));
    }
    if depth > MAX_EXPR_DEPTH {
        return Err(EngineError::Query("조건식 중첩이 너무 깊음".to_owned()));
    }
    match e {
        FilterExpr::True => {
            push_str(out, "TRUE");
            assert(params_view(params@) =~= params_view(params@) + seq![]);
        },
        FilterExpr::And { items } => {
            if items.len() == 0 {
                push_str(out, "TRUE");
                assert(params_view(params@) =~= params_view(params@) + seq![]);
                return Ok(());
            }
            proof { assert(decreases_to!(*e => items@)); }
            return items_sql(items, " AND ", out, params, nodes, depth + 1);
        },
        FilterExpr::Or { items } => {
            if items.len() == 0 {
                push_str(out, "TRUE");
                assert(params_view(params@) =~= params_view(params@) + seq![]);
                return Ok(());
            }
            proof { assert(decreases_to!(*e => items@)); }
            return items_sql(items, " OR ", out, params, nodes, depth + 1);
        },
        FilterExpr::Not { item } => {
            push_str(out, "(NOT ");
            let r = expr_sql(item, out, params, nodes, depth + 1);
            if r.is_err() {
                return r;
            }
            push_str(out, ")");
        },
        FilterExpr::Cond { field, op, value } => {
            return cond_sql(*field, *op, value, out, params);
        },
    }
    Ok(())
}

/// Emits a non-empty item list in parentheses, joined by `joiner`.
fn items_sql(items: &Vec<FilterExpr>, joiner: &str, out: &mut Vec<char>, params: &mut Vec<SqlValue>, nodes: &mut usize, depth: usize)
    -> (r: Result<(), EngineError>)
    requires
        items@.len() > 0,
        *old(nodes) <= MAX_EXPR_NODES,
        depth <= MAX_EXPR_DEPTH + 1,
    ensures
        match items_emit(items@, items@.len(), joiner@, *old(nodes) as nat, depth as nat) {
            Ok((s, ps, n)) => r is Ok && final(out)@ == old(out)@ + "("@ + s + ")"@
                && params_view(final(params)@) == params_view(old(params)@) + ps && *final(nodes) == n,
            Err(m) => r matches Err(EngineError::Query(x)) && x@ == m,
        },
    decreases items@, items@.len() + 1,
{
    let ghost out0 = out@;
    let ghost p0 = params_view(params@);
    let ghost n0 = *nodes as nat;
    push_str(out, "(");
    let mut i: usize = 0;
    while i < items.len()
        invariant
            i <= items.len(),
            depth <= MAX_EXPR_DEPTH + 1,
            n0 == *old(nodes) as nat,
            out0 == old(out)@,
            p0 == params_view(old(params)@),
            items_emit(items@, i as nat, joiner@, n0, depth as nat) matches Ok((s, ps, n))
                && out@ == out0 + "("@ + s && params_view(params@) == p0 + ps && *nodes == n
                && *nodes <= MAX_EXPR_NODES,
        decreases items.len() - i,
    {
        proof {
            lemma_items_nodes(items@, i as nat, joiner@, n0, depth as nat);
            assert(decreases_to!(items@ => items@[i as int]));
        }
        let ghost before = items_emit(items@, i as nat, joiner@, n0, depth as nat)->Ok_0;
        if i > 0 {
            push_str(out, joiner);
        }
        let r = expr_sql(&items[i], out, params, nodes, depth);
        if r.is_err() {
            proof {
                assert(expr_emit(items@[i as int], before.2, depth as nat) is Err);
                assert(items_emit(items@, (i + 1) as nat, joiner@, n0, depth as nat)
                    == Err::<(Seq<char>, Seq<ParamView>, nat), Seq<char>>(expr_emit(items@[i as int], before.2, depth as nat)->Err_0));
                lemma_items_err(items@, (i + 1) as nat, items@.len(), joiner@, n0, depth as nat);
                assert(items_emit(items@, items@.len(), joiner@, n0, depth as nat)
                    == Err::<(Seq<char>, Seq<ParamView>, nat), Seq<char>>(expr_emit(items@[i as int], before.2, depth as nat)->Err_0));
            }
            return r;
        }
        proof {
            let step = expr_emit(items@[i as int], before.2, depth as nat)->Ok_0;
            lemma_expr_nodes(items@[i as int], before.2, depth as nat);
            assert(out@ =~= out0 + "("@ + (before.0 + (if i + 1 > 1 { joiner@ } else { seq![] }) + step.0));
            assert(params_view(params@) =~= p0 + (before.1 + step.1));
        }
        i = i + 1;
    }
    push_str(out, ")");
    Ok(())
}


/// A WHERE clause and its bound parameters.
#[derive(Debug, Clone)]
pub struct SqlParts {
    /// The condition text, with `?` placeholders.
    pub where_sql: String,
    /// The parameters in placeholder order.
    pub params: Vec<SqlValue>,
}

/// SQL text and parameters built so far.
pub type Emitted = (Seq<char>, Seq<ParamView>);

/// `acc` followed by `text` and `ps` when `on`.
pub open spec fn clause(on: bool, acc: Emitted, text: Seq<char>, ps: Seq<ParamView>) -> Emitted {
    if on { (acc.0 + text, acc.1 + ps) } else { acc }
}

/// The clauses of the simple conditions before the status class.
pub open spec fn filter_head(f: LogFilter) -> Emitted {
    let a0: Emitted = ("1=1"@, seq![]);
    let a1 = clause(f.job_id is Some, a0, " AND job_id = ?"@, seq![ParamView::BigInt(f.job_id->Some_0)]);
    let a2 = clause(f.source_id is Some, a1, " AND source_id = ?"@, seq![ParamView::BigInt(f.source_id->Some_0)]);
    let a3 = clause(f.active_only, a2, " AND job_id IN (SELECT job_id FROM import_jobs WHERE active)"@, seq![]);
    let a4 = clause(f.time_from_micros is Some, a3, " AND timestamp_utc >= make_timestamp(?)"@,
        seq![ParamView::BigInt(f.time_from_micros->Some_0)]);
    let a5 = clause(f.time_to_micros is Some, a4, " AND timestamp_utc < make_timestamp(?)"@,
        seq![ParamView::BigInt(f.time_to_micros->Some_0)]);
    clause(f.status is Some, a5, " AND status = ?"@, seq![ParamView::Int(f.status->Some_0 as i32)])
}

/// The clauses of the text conditions after the status class.
pub open spec fn filter_texts(f: LogFilter, acc: Emitted) -> Emitted {
    let b1 = clause(f.client_ip is Some, acc, " AND client_ip = ?"@, seq![ParamView::Text(f.client_ip->Some_0@)]);
    clause(f.method is Some, b1, " AND method = ?"@, seq![ParamView::Text(f.method->Some_0@)])
}

/// The clauses after the target conditions: log kind, bookmarks.
pub open spec fn filter_tail(f: LogFilter, acc: Emitted) -> Emitted {
    let c1 = clause(f.log_kind is Some, acc,
        " AND job_id IN (SELECT job_id FROM import_jobs WHERE coalesce(log_kind, 'access') = ?)"@,
        seq![ParamView::Text(log_kind_text(f.log_kind->Some_0))]);
    clause(f.bookmarked_only, c1,
        " AND EXISTS (SELECT 1 FROM bookmarks b WHERE b.source_id = logs.source_id AND b.line_number = logs.line_number)"@,
        seq![])
}

/// The WHERE clause of a filter and its parameters, or why the filter is refused: a
/// status class outside 1 to 5, a search text or regex over 1024 bytes, a regex that does
/// not compile, or a refused expression.
pub open spec fn filter_emit(f: LogFilter) -> Result<Emitted, Seq<char>> {
    match filter_middle(f, filter_head(f)) {
        Err(m) => Err(m),
        Ok(b4) => {
            let c2 = filter_tail(f, b4);
            match f.expr {
                None => Ok(c2),
                Some(e) => match expr_emit(e, 0, 0) {
                    Err(m) => Err(m),
                    Ok((s, ps, _)) => Ok((c2.0 + " AND "@ + s, c2.1 + ps)),
                },
            }
        },
    }
}

fn add_clause(out: &mut Vec<char>, params: &mut Vec<SqlValue>, text: &str)
    ensures
        final(out)@ == old(out)@ + text@,
        params_view(final(params)@) == params_view(old(params)@) + seq![],
{
    push_str(out, text);
    assert(params_view(params@) =~= params_view(params@) + seq![]);
}

fn add_clause1(out: &mut Vec<char>, params: &mut Vec<SqlValue>, text: &str, v: SqlValue)
    ensures
        final(out)@ == old(out)@ + text@,
        params_view(final(params)@) == params_view(old(params)@) + seq![param_view(v)],
{
    push_str(out, text);
    let ghost before = params_view(params@);
    push_param(params, v);
    assert(params_view(params@) =~= before + seq![param_view(v)]);
}

fn head_sql(filter: &LogFilter, out: &mut Vec<char>, params: &mut Vec<SqlValue>)
    requires
        old(out)@ == "1=1"@,
        old(params)@.len() == 0,
    ensures
        (final(out)@, params_view(final(params)@)) == filter_head(*filter),
{
    assert(params_view(params@) =~= seq![]);
    if let Some(v) = filter.job_id {
        add_clause1(out, params, " AND job_id = ?", SqlValue::BigInt(v));
    }
    if let Some(v) = filter.source_id {
        add_clause1(out, params, " AND source_id = ?", SqlValue::BigInt(v));
    }
    if filter.active_only {
        add_clause(out, params, " AND job_id IN (SELECT job_id FROM import_jobs WHERE active)");
    }
    if let Some(v) = filter.time_from_micros {
        add_clause1(out, params, " AND timestamp_utc >= make_timestamp(?)", SqlValue::BigInt(v));
    }
    if let Some(v) = filter.time_to_micros {
        add_clause1(out, params, " AND timestamp_utc < make_timestamp(?)", SqlValue::BigInt(v));
    }
    if let Some(v) = filter.status {
        add_clause1(out, params, " AND status = ?", SqlValue::Int(v as i32));
    }
}

fn texts_sql(filter: &LogFilter, out: &mut Vec<char>, params: &mut Vec<SqlValue>)
    ensures
        (final(out)@, params_view(final(params)@)) == filter_texts(*filter, (old(out)@, params_view(old(params)@))),
{
    if let Some(v) = &filter.client_ip {
        add_clause1(out, params, " AND client_ip = ?", SqlValue::Text(v.clone()));
    }
    if let Some(v) = &filter.method {
        add_clause1(out, params, " AND method = ?", SqlValue::Text(v.clone()));
    }
}

fn tail_sql(filter: &LogFilter, out: &mut Vec<char>, params: &mut Vec<SqlValue>)
    ensures
        (final(out)@, params_view(final(params)@)) == filter_tail(*filter, (old(out)@, params_view(old(params)@))),
{
    if let Some(kind) = filter.log_kind {
        let k = kind.as_str();
        add_clause1(out, params,
            " AND job_id IN (SELECT job_id FROM import_jobs WHERE coalesce(log_kind, 'access') = ?)",
            SqlValue::Text(k.to_owned()));
    }
    if filter.bookmarked_only {
        add_clause(out, params,
            " AND EXISTS (SELECT 1 FROM bookmarks b WHERE b.source_id = logs.source_id AND b.line_number = logs.line_number)");
    }
}

/// The status class clause, the text clauses and the target clauses, or why they are
/// refused.
pub open spec fn filter_middle(f: LogFilter, a: Emitted) -> Result<Emitted, Seq<char>> {
    if f.status_class is Some && !(1 <= f.status_class->Some_0 <= 5) {
        Err("status_class는 1~5여야 함"@)
    } else {
        let c = f.status_class->Some_0 as i32;
        let a6 = clause(f.status_class is Some, a, " AND status >= ? AND status < ?"@,
            seq![ParamView::Int((c * 100) as i32), ParamView::Int((c * 100 + 100) as i32)]);
        let b = filter_texts(f, a6);
        if f.target_contains is Some && byte_len(f.target_contains->Some_0@) > MAX_SEARCH_BYTES {
            Err("검색 문자열이 상한을 넘음"@)
        } else {
            let b3 = clause(f.target_contains is Some, b, " AND contains(request_target, ?)"@,
                seq![ParamView::Text(f.target_contains->Some_0@)]);
            if f.target_regex is Some && byte_len(f.target_regex->Some_0@) > MAX_SEARCH_BYTES {
                Err("정규식이 상한을 넘음"@)
            } else if f.target_regex is Some && regex_new_result(f.target_regex->Some_0@) is Err {
                Err("요청 대상 정규식 오류: "@ + regex_new_result(f.target_regex->Some_0@)->Err_0)
            } else {
                Ok(clause(f.target_regex is Some, b3, " AND regexp_matches(request_target, ?)"@,
                    seq![ParamView::Text(f.target_regex->Some_0@)]))
            }
        }
    }
}

fn middle_sql(filter: &LogFilter, out: &mut Vec<char>, params: &mut Vec<SqlValue>) -> (r: Result<(), EngineError>)
    ensures
        match filter_middle(*filter, (old(out)@, params_view(old(params)@))) {
            Ok((s, ps)) => r is Ok && final(out)@ == s && params_view(final(params)@) == ps,
            Err(m) => r matches Err(EngineError::Query(x)) && x@ == m,
        },
{
    if let Some(c) = filter.status_class {
        if !(1 <= c && c <= 5) {
            return Err(EngineError::Query("status_class는 1~5여야 함".to_owned()));
        }
        push_str(out, " AND status >= ? AND status < ?");
        let ghost before = params_view(params@);
        let lo: i32 = (c as i32) * 100;
        push_param(params, SqlValue::Int(lo));
        push_param(params, SqlValue::Int(lo + 100));
        assert(params_view(params@) =~= before + seq![ParamView::Int(lo), ParamView::Int((lo + 100) as i32)]);
    }
    texts_sql(filter, out, params);
    if let Some(v) = &filter.target_contains {
        if v.as_str().len() > MAX_SEARCH_BYTES {
            return Err(EngineError::Query("검색 문자열이 상한을 넘음".to_owned()));
        }
        add_clause1(out, params, " AND contains(request_target, ?)", SqlValue::Text(v.clone()));
    }
    if let Some(v) = &filter.target_regex {
        if v.as_str().len() > MAX_SEARCH_BYTES {
            return Err(EngineError::Query("정규식이 상한을 넘음".to_owned()));
        }
        match regex_new(v.as_str()) {
            Err(e) => {
                let mut m: Vec<char> = Vec::new();
                push_str(&mut m, "요청 대상 정규식 오류: ");
                push_str(&mut m, e.as_str());
                return Err(EngineError::Query(chars_to_string(&m)));
            },
            Ok(_) => {},
        }
        add_clause1(out, params, " AND regexp_matches(request_target, ?)", SqlValue::Text(v.clone()));
    }
    Ok(())
}

/// Builds the WHERE clause of a filter with bound parameters.
pub fn filter_sql(filter: &LogFilter) -> (r: Result<SqlParts, EngineError>)
    ensures
        match filter_emit(*filter) {
            Ok((s, ps)) => r matches Ok(p) && p.where_sql@ == s && params_view(p.params@) == ps,
            Err(m) => r matches Err(EngineError::Query(x)) && x@ == m,
        },
{
    let mut out: Vec<char> = Vec::new();
    let mut params: Vec<SqlValue> = Vec::new();
    push_str(&mut out, "1=1");
    head_sql(filter, &mut out, &mut params);
    let m = middle_sql(filter, &mut out, &mut params);
    if let Err(x) = m {
        return Err(x);
    }
    tail_sql(filter, &mut out, &mut params);
    if let Some(e) = &filter.expr {
        push_str(&mut out, " AND ");
        let mut nodes: usize = 0;
        let r = expr_sql(e, &mut out, &mut params, &mut nodes, 0);
        if let Err(x) = r {
            return Err(x);
        }
    }
    Ok(SqlParts { where_sql: chars_to_string(&out), params })
}


/// Sort order. Only time order is offered; rows without time always come last.
#[derive(Debug, Clone, Copy, PartialEq, Eq, Default)]
pub enum SortOrder {
    /// Time ascending.
    #[default]
    TimeAsc,
    /// Time descending.
    TimeDesc,
}

/// Cursor segment.
#[derive(Debug, Clone, Copy, PartialEq, Eq)]
pub enum CursorSegment {
    /// Rows with a time.
    Timed,
    /// Rows without time.
    NullTime,
}

/// A page cursor: the hash of filter and order, the committed batch bound, and the key of
/// the last row.
#[derive(Debug, Clone, PartialEq, Eq)]
pub struct PageCursor {
    /// Hash of filter and order; a cursor used with another request is refused.
    pub filter_hash: String,
    /// The largest batch ID the query sees.
    pub max_batch_id: i64,
    /// Segment.
    pub segment: CursorSegment,
    /// Time of the last row (microseconds).
    pub last_ts: Option<i64>,
    /// Source ID of the last row.
    pub last_source_id: i64,
    /// Line number of the last row.
    pub last_line: i64,
}

/// A page request.
#[derive(Debug, Clone, PartialEq, Eq)]
pub struct PageRequest {
    /// Conditions.
    pub filter: LogFilter,
    /// Order.
    pub sort: SortOrder,
    /// Page size (at most [`MAX_PAGE_SIZE`]).
    pub page_size: u32,
    /// Cursor of the previous page.
    pub cursor: Option<PageCursor>,
}

/// A table row. Long user agents and extension fields are left to the detail query.
#[derive(Debug, Clone, PartialEq, Eq)]
pub struct LogRow {
    /// Source ID.
    pub source_id: i64,
    /// Line number.
    pub line_number: i64,
    /// UTC microseconds.
    pub timestamp_utc: Option<i64>,
    /// Client IP.
    pub client_ip: Option<String>,
    /// Method.
    pub method: Option<String>,
    /// Request target.
    pub request_target: Option<String>,
    /// Status code.
    pub status: Option<i32>,
    /// Bytes sent.
    pub bytes_sent: Option<i64>,
    /// Bookmarked.
    pub bookmarked: bool,
    /// Extension fields as JSON (level and message of error logs go here).
    pub extra_json: Option<String>,
}

/// A page.
#[derive(Debug, Clone, PartialEq, Eq)]
pub struct LogPage {
    /// Rows.
    pub rows: Vec<LogRow>,
    /// Cursor of the next page; none on the last page.
    pub next_cursor: Option<PageCursor>,
    /// Approximate response bytes.
    pub approx_bytes: usize,
}

/// A full record; the input of a reconstructed log line.
#[derive(Debug, Clone, PartialEq, Eq)]
pub struct LogDetail {
    /// Job ID.
    pub job_id: i64,
    /// Batch ID.
    pub batch_id: i64,
    /// Source ID.
    pub source_id: i64,
    /// Path of the file (as currently linked).
    pub source_path: String,
    /// Line number.
    pub line_number: i64,
    /// UTC microseconds.
    pub timestamp_utc: Option<i64>,
    /// Offset applied (seconds).
    pub tz_offset_seconds: Option<i32>,
    /// Client IP.
    pub client_ip: Option<String>,
    /// Method.
    pub method: Option<String>,
    /// Request target.
    pub request_target: Option<String>,
    /// Protocol.
    pub protocol: Option<String>,
    /// Status code.
    pub status: Option<i32>,
    /// Bytes sent.
    pub bytes_sent: Option<i64>,
    /// Referrer.
    pub referrer: Option<String>,
    /// User agent.
    pub user_agent: Option<String>,
    /// Extension fields as JSON.
    pub extra_json: Option<String>,
}

/// An export row with every column; no raw line.
#[derive(Debug, Clone, PartialEq, Eq)]
pub struct ExportRow {
    /// Job ID.
    pub job_id: i64,
    /// Source ID.
    pub source_id: i64,
    /// Line number.
    pub line_number: i64,
    /// UTC microseconds.
    pub timestamp_utc: Option<i64>,
    /// Offset applied (seconds).
    pub tz_offset_seconds: Option<i32>,
    /// Client IP.
    pub client_ip: Option<String>,
    /// Method.
    pub method: Option<String>,
    /// Request target.
    pub request_target: Option<String>,
    /// Protocol.
    pub protocol: Option<String>,
    /// Status code.
    pub status: Option<i32>,
    /// Bytes sent.
    pub bytes_sent: Option<i64>,
    /// Referrer.
    pub referrer: Option<String>,
    /// User agent.
    pub user_agent: Option<String>,
    /// Extension fields as JSON.
    pub extra_json: Option<String>,
}

/// `n`, or `usize::MAX` when it is larger.
pub open spec fn sat(n: nat) -> nat {
    if n > usize::MAX { usize::MAX as nat } else { n }
}

/// A row that cursor paging can key: (time, source ID, line number) and its size.
pub trait KeyedRow {
    /// The row's key.
    spec fn key_spec(&self) -> (Option<i64>, i64, i64);

    /// The row's approximate bytes.
    spec fn bytes_spec(&self) -> nat;

    /// (timestamp_utc, source_id, line_number).
    fn key(&self) -> (r: (Option<i64>, i64, i64))
        ensures
            r == self.key_spec();

    /// Approximate response bytes (saturating).
    fn approx_bytes(&self) -> (r: usize)
        ensures
            r == sat(self.bytes_spec());
}

fn opt_len(o: &Option<String>) -> (r: usize)
    ensures
        r == crate::record::opt_bytes(*o),
{
    match o {
        Some(s) => s.as_str().len(),
        None => 0,
    }
}

impl KeyedRow for LogRow {
    open spec fn key_spec(&self) -> (Option<i64>, i64, i64) {
        (self.timestamp_utc, self.source_id, self.line_number)
    }

    open spec fn bytes_spec(&self) -> nat {
        48 + crate::record::opt_bytes(self.client_ip) + crate::record::opt_bytes(self.method)
            + crate::record::opt_bytes(self.request_target) + crate::record::opt_bytes(self.extra_json)
    }

    fn key(&self) -> (r: (Option<i64>, i64, i64)) {
        (self.timestamp_utc, self.source_id, self.line_number)
    }

    fn approx_bytes(&self) -> (r: usize) {
        let t: usize = 48;
        t.saturating_add(opt_len(&self.client_ip)).saturating_add(opt_len(&self.method))
            .saturating_add(opt_len(&self.request_target)).saturating_add(opt_len(&self.extra_json))
    }
}

impl KeyedRow for ExportRow {
    open spec fn key_spec(&self) -> (Option<i64>, i64, i64) {
        (self.timestamp_utc, self.source_id, self.line_number)
    }

    open spec fn bytes_spec(&self) -> nat {
        96 + crate::record::opt_bytes(self.client_ip) + crate::record::opt_bytes(self.method)
            + crate::record::opt_bytes(self.request_target) + crate::record::opt_bytes(self.protocol)
            + crate::record::opt_bytes(self.referrer) + crate::record::opt_bytes(self.user_agent)
            + crate::record::opt_bytes(self.extra_json)
    }

    fn key(&self) -> (r: (Option<i64>, i64, i64)) {
        (self.timestamp_utc, self.source_id, self.line_number)
    }

    fn approx_bytes(&self) -> (r: usize) {
        let t: usize = 96;
        t.saturating_add(opt_len(&self.client_ip)).saturating_add(opt_len(&self.method))
            .saturating_add(opt_len(&self.request_target)).saturating_add(opt_len(&self.protocol))
            .saturating_add(opt_len(&self.referrer)).saturating_add(opt_len(&self.user_agent))
            .saturating_add(opt_len(&self.extra_json))
    }
}

/// Checks a page size against its limit.
pub fn check_page_size(page_size: u32, max_page_size: u32) -> (r: Result<(), EngineError>)
    ensures
        (1 <= page_size <= max_page_size) ==> r is Ok,
        !(1 <= page_size <= max_page_size) ==> (r matches Err(EngineError::Query(x))
            && x@ == "page_size는 1~"@ + crate::text::decimal(max_page_size as nat) + " 사이여야 함"@),
{
    if page_size == 0 || page_size > max_page_size {
        let mut m: Vec<char> = Vec::new();
        push_str(&mut m, "page_size는 1~");
        crate::text::push_decimal(&mut m, max_page_size as u64);
        push_str(&mut m, " 사이여야 함");
        return Err(EngineError::Query(chars_to_string(&m)));
    }
    Ok(())
}

/// Where a page starts: the batch bound, the segment, and the key after which rows come.
pub type PageStart = (i64, CursorSegment, Option<(Option<i64>, i64, i64)>);

/// Where a cursor starts the next page of the request with hash `hash`: within the
/// batches the cursor was pinned to, in its segment, after its row; `None` when the
/// cursor was made for another request.
pub open spec fn cursor_start(c: PageCursor, hash: Seq<char>) -> Option<PageStart> {
    if c.filter_hash@ == hash {
        Some((c.max_batch_id, c.segment, Some((c.last_ts, c.last_source_id, c.last_line))))
    } else {
        None
    }
}

/// The start of a page: from the cursor, which must carry this request's hash, or from
/// the beginning with the current batch bound.
pub fn page_start(cursor: Option<&PageCursor>, hash: &str, current_max_batch_id: i64) -> (r: Result<PageStart, EngineError>)
    ensures
        match cursor {
            Some(c) => match cursor_start(*c, hash@) {
                Some(st) => r == Ok::<PageStart, EngineError>(st),
                None => r matches Err(EngineError::Query(x)) && x@ == "커서가 다른 조건으로 만들어짐"@,
            },
            None => r == Ok::<PageStart, EngineError>((current_max_batch_id, CursorSegment::Timed, None)),
        },
{
    match cursor {
        Some(c) => {
            if !crate::text::str_eq(c.filter_hash.as_str(), hash) {
                return Err(EngineError::Query("커서가 다른 조건으로 만들어짐".to_owned()));
            }
            Ok((c.max_batch_id, c.segment, Some((c.last_ts, c.last_source_id, c.last_line))))
        },
        None => Ok((current_max_batch_id, CursorSegment::Timed, None)),
    }
}

/// Sum of the row sizes of the first `n` rows (each saturated).
pub open spec fn bytes_prefix<T: KeyedRow>(rows: Seq<T>, n: int) -> nat
    decreases n,
{
    if n <= 0 {
        0
    } else {
        bytes_prefix(rows, n - 1) + sat(rows[n - 1].bytes_spec())
    }
}

/// Where a page is cut for the byte cap: the first row after the first whose running
/// size passes the cap, or all `k` rows.
pub open spec fn byte_cut<T: KeyedRow>(rows: Seq<T>, k: int, cap: Option<usize>, i: int) -> int
    decreases k - i,
{
    if i >= k {
        k
    } else if cap is Some && i > 0 && sat(bytes_prefix(rows, i + 1)) > cap->Some_0 {
        i
    } else {
        byte_cut(rows, k, cap, i + 1)
    }
}

/// The running size reported for a page cut at `cut` of `k` rows: up to and including
/// the row that passed the cap.
pub open spec fn reported_bytes<T: KeyedRow>(rows: Seq<T>, k: int, cut: int) -> nat {
    if cut < k { sat(bytes_prefix(rows, cut + 1)) } else { sat(bytes_prefix(rows, k)) }
}

proof fn lemma_byte_cut_range<T: KeyedRow>(rows: Seq<T>, k: int, cap: Option<usize>, i: int)
    requires
        0 <= i <= k,
    ensures
        i <= byte_cut(rows, k, cap, i) <= k,
        byte_cut(rows, k, cap, i) < k ==> byte_cut(rows, k, cap, i) >= 1,
    decreases k - i,
{
    if i < k {
        lemma_byte_cut_range(rows, k, cap, i + 1);
    }
}

/// Paging makes progress: from a non-empty fetch with a page size of at least one, a page
/// keeps at least one row, however small the byte cap (see [`finish_page`], whose cursor is
/// then the key of that page's last row).
pub proof fn lemma_page_keeps_a_row<T: KeyedRow>(rows: Seq<T>, page_size: u32, byte_cap: Option<usize>)
    requires
        rows.len() > 0,
        page_size >= 1,
    ensures
        byte_cut(rows, page_take(rows, page_size), byte_cap, 0) >= 1,
{
    lemma_byte_cut_range(rows, page_take(rows, page_size), byte_cap, 0);
}

proof fn lemma_sat_add(a: nat, b: nat)
    ensures
        sat(sat(a) + sat(b)) == sat(a + b),
{
}

/// The rows a page may keep: all fetched rows up to the page size.
pub open spec fn page_take<T: KeyedRow>(rows: Seq<T>, page_size: u32) -> int {
    if rows.len() < page_size { rows.len() as int } else { page_size as int }
}

/// Whether a page is followed by another: more rows were fetched than it keeps (or the
/// byte cap cut it), and it kept at least one.
pub open spec fn page_continues<T: KeyedRow>(rows: Seq<T>, page_size: u32, byte_cap: Option<usize>, limit: usize) -> bool {
    let k = page_take(rows, page_size);
    let cut = byte_cut(rows, k, byte_cap, 0);
    (rows.len() >= limit || cut < k) && cut > 0
}

/// The cursor after a page (apart from its hash): pinned to the page's batches, keyed by
/// the page's last row, in the timed segment when that row has a time.
pub open spec fn next_cursor_of<T: KeyedRow>(rows: Seq<T>, page_size: u32, byte_cap: Option<usize>, max_batch_id: i64, segment: CursorSegment, c: PageCursor) -> bool {
    let cut = byte_cut(rows, page_take(rows, page_size), byte_cap, 0);
    &&& c.max_batch_id == max_batch_id
    &&& (c.last_ts, c.last_source_id, c.last_line) == rows[cut - 1].key_spec()
    &&& c.segment == if rows[cut - 1].key_spec().0 is Some { CursorSegment::Timed } else { segment }
}

/// A page's cursor, handed back with the same request, starts the next page right after
/// the page's last row and within the batches the first page was pinned to, whatever was
/// committed since.
pub proof fn lemma_cursor_continues_page<T: KeyedRow>(
    rows: Seq<T>,
    page_size: u32,
    byte_cap: Option<usize>,
    max_batch_id: i64,
    segment: CursorSegment,
    c: PageCursor,
    hash: Seq<char>,
)
    requires
        next_cursor_of(rows, page_size, byte_cap, max_batch_id, segment, c),
        c.filter_hash@ == hash,
    ensures
        cursor_start(c, hash) == Some::<PageStart>((max_batch_id, c.segment,
            Some(rows[byte_cut(rows, page_take(rows, page_size), byte_cap, 0) - 1].key_spec()))),
{
}

/// Finishes a page from the fetched rows (at most `page_size + 1` were asked for): keeps
/// at most `page_size`, cuts after the row that passes the byte cap, and gives the cursor
/// of the next page when rows remain.
pub fn finish_page<T: KeyedRow>(rows: Vec<T>, page_size: u32, byte_cap: Option<usize>, hash: String, max_batch_id: i64, segment: CursorSegment, limit: usize)
    -> (r: (Vec<T>, Option<PageCursor>, usize))
    requires
        limit == page_size as usize + 1,
    ensures
        ({
            let k = page_take(rows@, page_size);
            let cut = byte_cut(rows@, k, byte_cap, 0);
            &&& r.0@ == rows@.subrange(0, cut)
            &&& r.2 as nat == reported_bytes(rows@, k, cut)
            &&& page_continues(rows@, page_size, byte_cap, limit) ==> (r.1 matches Some(c) && c.filter_hash@ == hash@
                && next_cursor_of(rows@, page_size, byte_cap, max_batch_id, segment, c))
            &&& !page_continues(rows@, page_size, byte_cap, limit) ==> r.1 is None
        }),
{
    let ghost orig = rows@;
    let has_more = rows.len() >= limit;
    let mut rows = rows;
    let k: usize = if rows.len() < page_size as usize { rows.len() } else { page_size as usize };
    rows.truncate(k);
    assert(rows@ =~= orig.subrange(0, k as int));
    let mut approx: usize = 0;
    let mut cut: usize = k;
    let mut i: usize = 0;
    let mut stop = false;
    proof { lemma_byte_cut_range(orig, k as int, byte_cap, 0); }
    while i < k && !stop
        invariant
            i <= k,
            k <= orig.len(),
            rows@ == orig.subrange(0, k as int),
            !stop ==> (cut == k && approx as nat == sat(bytes_prefix(orig, i as int))
                && byte_cut(orig, k as int, byte_cap, 0) == byte_cut(orig, k as int, byte_cap, i as int)),
            stop ==> (cut as int == byte_cut(orig, k as int, byte_cap, 0) && cut < k && cut >= 1
                && approx as nat == sat(bytes_prefix(orig, cut + 1))),
        decreases k - i, if stop { 0int } else { 1int },
    {
        let b = rows[i].approx_bytes();
        proof {
            assert(rows@[i as int] == orig[i as int]);
            lemma_sat_add(bytes_prefix(orig, i as int), orig[i as int].bytes_spec());
        }
        approx = approx.saturating_add(b);
        let over = match byte_cap {
            Some(cap) => approx > cap,
            None => false,
        };
        if over && i > 0 {
            cut = i;
            stop = true;
        } else {
            i = i + 1;
        }
    }
    proof { lemma_byte_cut_range(orig, k as int, byte_cap, 0); }
    let truncated_by_bytes = cut < rows.len();
    rows.truncate(cut);
    assert(rows@ =~= orig.subrange(0, cut as int));
    let next = if has_more || truncated_by_bytes {
        if rows.len() > 0 {
            let last = rows.len() - 1;
            let (ts, sid, line) = rows[last].key();
            let seg = if ts.is_some() { CursorSegment::Timed } else { segment };
            Some(PageCursor { filter_hash: hash, max_batch_id, segment: seg, last_ts: ts, last_source_id: sid, last_line: line })
        } else {
            None
        }
    } else {
        None
    };
    (rows, next, approx)
}

/// The rows a page keeps of the rows fetched for it.
pub open spec fn page_rows<T: KeyedRow>(rows: Seq<T>, page_size: u32, byte_cap: Option<usize>) -> Seq<T> {
    rows.subrange(0, byte_cut(rows, page_take(rows, page_size), byte_cap, 0))
}

/// The rows a store fetch gives when it returns, of all rows `all` in the query's order,
/// the first `limit` after position `from`.
pub open spec fn fetched_after<T>(all: Seq<T>, from: int, limit: int) -> Seq<T> {
    all.subrange(from, if from + limit < all.len() { from + limit } else { all.len() as int })
}

/// The position just after the row of `all` whose key is `key`.
pub open spec fn position_after<T: KeyedRow>(all: Seq<T>, key: (Option<i64>, i64, i64)) -> int {
    (choose|i: int| 0 <= i < all.len() && (#[trigger] all[i]).key_spec() == key) + 1
}

/// No two rows share a key.
pub open spec fn keys_distinct<T: KeyedRow>(all: Seq<T>) -> bool {
    forall|i: int, j: int| 0 <= i < all.len() && 0 <= j < all.len() && i != j
        ==> (#[trigger] all[i]).key_spec() != (#[trigger] all[j]).key_spec()
}

/// The rows of the first `n` pages, one after another.
pub open spec fn pages_joined<T: KeyedRow>(fetches: Seq<Seq<T>>, n: int, page_size: u32, byte_cap: Option<usize>) -> Seq<T>
    decreases n,
{
    if n <= 0 {
        Seq::empty()
    } else {
        pages_joined(fetches, n - 1, page_size, byte_cap) + page_rows(fetches[n - 1], page_size, byte_cap)
    }
}

/// A run of pages: the first fetch starts at the beginning; each page but the last is
/// followed by another ([`page_continues`]), whose fetch starts right after the row its
/// cursor holds ([`next_cursor_of`]); the last page is followed by none.
pub open spec fn page_run<T: KeyedRow>(all: Seq<T>, fetches: Seq<Seq<T>>, page_size: u32, byte_cap: Option<usize>, limit: usize) -> bool {
    &&& fetches.len() >= 1
    &&& fetches[0] == fetched_after(all, 0, limit as int)
    &&& forall|k: int| 0 <= k < fetches.len() - 1 ==> page_continues(#[trigger] fetches[k], page_size, byte_cap, limit)
        && fetches[k + 1] == fetched_after(all, position_after(all, fetches[k][
            byte_cut(fetches[k], page_take(fetches[k], page_size), byte_cap, 0) - 1].key_spec()), limit as int)
    &&& !page_continues(fetches[fetches.len() - 1], page_size, byte_cap, limit)
}

/// Along a run, page `k`'s fetch starts where the pages before it ended.
proof fn lemma_page_run_prefix<T: KeyedRow>(
    all: Seq<T>,
    fetches: Seq<Seq<T>>,
    page_size: u32,
    byte_cap: Option<usize>,
    limit: usize,
    k: int,
) -> (pos: int)
    requires
        keys_distinct(all),
        page_size >= 1,
        limit == page_size as usize + 1,
        page_run(all, fetches, page_size, byte_cap, limit),
        0 <= k < fetches.len(),
    ensures
        0 <= pos <= all.len(),
        fetches[k] == fetched_after(all, pos, limit as int),
        pages_joined(fetches, k, page_size, byte_cap) == all.subrange(0, pos),
    decreases k,
{
    if k == 0 {
        assert(all.subrange(0, 0) =~= Seq::<T>::empty());
        0
    } else {
        let j = k - 1;
        let p = lemma_page_run_prefix(all, fetches, page_size, byte_cap, limit, j);
        let f = fetches[j];
        let t = page_take(f, page_size);
        let cut = byte_cut(f, t, byte_cap, 0);
        assert(page_continues(f, page_size, byte_cap, limit));
        lemma_byte_cut_range(f, t, byte_cap, 0);
        assert(1 <= cut <= f.len());
        let q = p + cut - 1;
        assert(f[cut - 1] == all[q]);
        let key = all[q].key_spec();
        assert(0 <= q < all.len() && all[q].key_spec() == key);
        let w = choose|i: int| 0 <= i < all.len() && (#[trigger] all[i]).key_spec() == key;
        assert(w == q);
        assert(position_after(all, key) == p + cut);
        assert(page_rows(f, page_size, byte_cap) =~= all.subrange(p, p + cut));
        assert(pages_joined(fetches, k, page_size, byte_cap) =~= all.subrange(0, p + cut));
        p + cut
    }
}

/// Pages cover every row once, in order. For the rows of a request in the query's order
/// (time order, then file and line, rows without time last; no two with one key), when
/// each fetch gives the first rows after where the page before it ended, a run of pages
/// from the first to the one with no cursor holds, page after page, exactly those rows:
/// each once and none left out, and no page more than the page size.
pub proof fn lemma_pages_cover_rows_once<T: KeyedRow>(
    all: Seq<T>,
    fetches: Seq<Seq<T>>,
    page_size: u32,
    byte_cap: Option<usize>,
    limit: usize,
)
    requires
        keys_distinct(all),
        page_size >= 1,
        limit == page_size as usize + 1,
        page_run(all, fetches, page_size, byte_cap, limit),
    ensures
        pages_joined(fetches, fetches.len() as int, page_size, byte_cap) == all,
        forall|k: int| 0 <= k < fetches.len() ==> (#[trigger] page_rows(fetches[k], page_size, byte_cap)).len() <= page_size,
{
    let last = fetches.len() - 1;
    let p = lemma_page_run_prefix(all, fetches, page_size, byte_cap, limit, last);
    let f = fetches[last];
    let t = page_take(f, page_size);
    let cut = byte_cut(f, t, byte_cap, 0);
    lemma_byte_cut_range(f, t, byte_cap, 0);
    if f.len() > 0 {
        lemma_page_keeps_a_row(f, page_size, byte_cap);
    }
    assert(!page_continues(f, page_size, byte_cap, limit));
    assert(page_rows(f, page_size, byte_cap) =~= all.subrange(p, all.len() as int));
    assert(pages_joined(fetches, fetches.len() as int, page_size, byte_cap) =~= all);
    assert forall|k: int| 0 <= k < fetches.len() implies (#[trigger] page_rows(fetches[k], page_size, byte_cap)).len()
        <= page_size by {
        lemma_byte_cut_range(fetches[k], page_take(fetches[k], page_size), byte_cap, 0);
    }
}

} // verus!
verus! {

/// The number of `?` placeholders in SQL text.
pub open spec fn placeholders(s: Seq<char>) -> nat
    decreases s.len(),
{
    if s.len() == 0 {
        0
    } else {
        placeholders(s.drop_last()) + if s.last() == '?' { 1nat } else { 0nat }
    }
}

/// SQL text with one placeholder for each parameter.
pub open spec fn balanced(e: Emitted) -> bool {
    placeholders(e.0) == e.1.len()
}

proof fn lemma_placeholders_concat(a: Seq<char>, b: Seq<char>)
    ensures
        placeholders(a + b) == placeholders(a) + placeholders(b),
    decreases b.len(),
{
    if b.len() == 0 {
        assert(a + b =~= a);
    } else {
        lemma_placeholders_concat(a, b.drop_last());
        assert((a + b).drop_last() =~= a + b.drop_last());
    }
}

proof fn lemma_filter_literals()
    ensures
        placeholders("1=1"@) == 0,
        placeholders(" AND job_id = ?"@) == 1,
        placeholders(" AND source_id = ?"@) == 1,
        placeholders(" AND timestamp_utc >= make_timestamp(?)"@) == 1,
        placeholders(" AND timestamp_utc < make_timestamp(?)"@) == 1,
        placeholders(" AND status = ?"@) == 1,
        placeholders(" AND status >= ? AND status < ?"@) == 2,
        placeholders(" AND contains(request_target, ?)"@) == 1,
        placeholders(" AND regexp_matches(request_target, ?)"@) == 1,
        placeholders(" AND client_ip = ?"@) == 1,
        placeholders(" AND method = ?"@) == 1,
        placeholders(" AND "@) == 0,
{
    reveal_strlit("1=1");
    reveal_strlit(" AND job_id = ?");
    reveal_strlit(" AND source_id = ?");
    reveal_strlit(" AND timestamp_utc >= make_timestamp(?)");
    reveal_strlit(" AND timestamp_utc < make_timestamp(?)");
    reveal_strlit(" AND status = ?");
    reveal_strlit(" AND status >= ? AND status < ?");
    reveal_strlit(" AND contains(request_target, ?)");
    reveal_strlit(" AND regexp_matches(request_target, ?)");
    reveal_strlit(" AND client_ip = ?");
    reveal_strlit(" AND method = ?");
    reveal_strlit(" AND ");
    reveal_with_fuel(placeholders, 42);
}

proof fn lemma_active_literal()
    ensures
        placeholders(" AND job_id IN (SELECT job_id FROM import_jobs WHERE active)"@) == 0,
{
    reveal_strlit(" AND job_id IN (SELECT job_id FROM import_jobs WHERE active)");
    reveal_strlit(" AND job_id IN (SELECT job_id ");
    reveal_strlit("FROM import_jobs WHERE active)");
    assert(" AND job_id IN (SELECT job_id FROM import_jobs WHERE active)"@
        =~= " AND job_id IN (SELECT job_id "@ + "FROM import_jobs WHERE active)"@);
    lemma_placeholders_concat(" AND job_id IN (SELECT job_id "@, "FROM import_jobs WHERE active)"@);
    assert(placeholders(" AND job_id IN (SELECT job_id "@) == 0) by {
        reveal_strlit(" AND job_id IN (SELECT job_id ");
        reveal_with_fuel(placeholders, 32);
    }
    assert(placeholders("FROM import_jobs WHERE active)"@) == 0) by {
        reveal_strlit("FROM import_jobs WHERE active)");
        reveal_with_fuel(placeholders, 32);
    }
}

proof fn lemma_kind_literal()
    ensures
        placeholders(" AND job_id IN (SELECT job_id FROM import_jobs WHERE coalesce(log_kind, 'access') = ?)"@) == 1,
{
    reveal_strlit(" AND job_id IN (SELECT job_id FROM import_jobs WHERE coalesce(log_kind, 'access') = ?)");
    reveal_strlit(" AND job_id IN (SELECT job_id ");
    reveal_strlit("FROM import_jobs WHERE ");
    reveal_strlit("coalesce(log_kind, 'access') = ?)");
    assert(" AND job_id IN (SELECT job_id FROM import_jobs WHERE coalesce(log_kind, 'access') = ?)"@
        =~= " AND job_id IN (SELECT job_id "@ + "FROM import_jobs WHERE "@ + "coalesce(log_kind, 'access') = ?)"@);
    lemma_placeholders_concat(" AND job_id IN (SELECT job_id "@, "FROM import_jobs WHERE "@);
    lemma_placeholders_concat(" AND job_id IN (SELECT job_id "@ + "FROM import_jobs WHERE "@, "coalesce(log_kind, 'access') = ?)"@);
    assert(placeholders(" AND job_id IN (SELECT job_id "@) == 0) by {
        reveal_strlit(" AND job_id IN (SELECT job_id ");
        reveal_with_fuel(placeholders, 32);
    }
    assert(placeholders("FROM import_jobs WHERE "@) == 0) by {
        reveal_strlit("FROM import_jobs WHERE ");
        reveal_with_fuel(placeholders, 25);
    }
    assert(placeholders("coalesce(log_kind, 'access') = ?)"@) == 1) by {
        reveal_strlit("coalesce(log_kind, 'access') = ?)");
        reveal_with_fuel(placeholders, 35);
    }
}

proof fn lemma_bookmark_literal()
    ensures
        placeholders(
            " AND EXISTS (SELECT 1 FROM bookmarks b WHERE b.source_id = logs.source_id AND b.line_number = logs.line_number)"@,
        ) == 0,
{
    reveal_strlit(" AND EXISTS (SELECT 1 FROM bookmarks b WHERE b.source_id = logs.source_id AND b.line_number = logs.line_number)");
    reveal_strlit(" AND EXISTS (SELECT 1 FROM bookmarks b ");
    reveal_strlit("WHERE b.source_id = logs.source_id ");
    reveal_strlit("AND b.line_number = logs.line_number)");
    assert(" AND EXISTS (SELECT 1 FROM bookmarks b WHERE b.source_id = logs.source_id AND b.line_number = logs.line_number)"@
        =~= " AND EXISTS (SELECT 1 FROM bookmarks b "@ + "WHERE b.source_id = logs.source_id "@
        + "AND b.line_number = logs.line_number)"@);
    lemma_placeholders_concat(" AND EXISTS (SELECT 1 FROM bookmarks b "@, "WHERE b.source_id = logs.source_id "@);
    lemma_placeholders_concat(" AND EXISTS (SELECT 1 FROM bookmarks b "@ + "WHERE b.source_id = logs.source_id "@,
        "AND b.line_number = logs.line_number)"@);
    assert(placeholders(" AND EXISTS (SELECT 1 FROM bookmarks b "@) == 0) by {
        reveal_strlit(" AND EXISTS (SELECT 1 FROM bookmarks b ");
        reveal_with_fuel(placeholders, 42);
    }
    assert(placeholders("WHERE b.source_id = logs.source_id "@) == 0) by {
        reveal_strlit("WHERE b.source_id = logs.source_id ");
        reveal_with_fuel(placeholders, 37);
    }
    assert(placeholders("AND b.line_number = logs.line_number)"@) == 0) by {
        reveal_strlit("AND b.line_number = logs.line_number)");
        reveal_with_fuel(placeholders, 39);
    }
}

proof fn lemma_expr_literals()
    ensures
        placeholders("TRUE"@) == 0,
        placeholders("("@) == 0,
        placeholders(")"@) == 0,
        placeholders("(NOT "@) == 0,
        placeholders(" AND "@) == 0,
        placeholders(" OR "@) == 0,
        placeholders(" IS NULL"@) == 0,
        placeholders(" "@) == 0,
        placeholders("="@) == 0,
        placeholders("<>"@) == 0,
        placeholders(">"@) == 0,
        placeholders(">="@) == 0,
        placeholders("<"@) == 0,
        placeholders("<="@) == 0,
        placeholders(" ?"@) == 1,
        placeholders("contains("@) == 0,
        placeholders(", ?)"@) == 1,
        placeholders("contains(lower("@) == 0,
        placeholders("), lower(?))"@) == 1,
        placeholders("starts_with("@) == 0,
        placeholders("ends_with("@) == 0,
        placeholders("regexp_matches("@) == 0,
{
    reveal_strlit("TRUE");
    reveal_strlit("(");
    reveal_strlit(")");
    reveal_strlit("(NOT ");
    reveal_strlit(" AND ");
    reveal_strlit(" OR ");
    reveal_strlit(" IS NULL");
    reveal_strlit(" ");
    reveal_strlit("=");
    reveal_strlit("<>");
    reveal_strlit(">");
    reveal_strlit(">=");
    reveal_strlit("<");
    reveal_strlit("<=");
    reveal_strlit(" ?");
    reveal_strlit("contains(");
    reveal_strlit(", ?)");
    reveal_strlit("contains(lower(");
    reveal_strlit("), lower(?))");
    reveal_strlit("starts_with");
    reveal_strlit("ends_with");
    reveal_strlit("contains");
    reveal_strlit("starts_with(");
    reveal_strlit("ends_with(");
    reveal_strlit("regexp_matches(");
    reveal_with_fuel(placeholders, 17);
}

proof fn lemma_plain_status()
    ensures
        placeholders("status"@) == 0,
{
    reveal_strlit("status");
    reveal_with_fuel(placeholders, 8);
}

proof fn lemma_plain_bytes_sent()
    ensures
        placeholders("bytes_sent"@) == 0,
{
    reveal_strlit("bytes_sent");
    reveal_with_fuel(placeholders, 12);
}

proof fn lemma_plain_client_ip()
    ensures
        placeholders("client_ip"@) == 0,
{
    reveal_strlit("client_ip");
    reveal_with_fuel(placeholders, 11);
}

proof fn lemma_plain_method()
    ensures
        placeholders("method"@) == 0,
{
    reveal_strlit("method");
    reveal_with_fuel(placeholders, 8);
}

proof fn lemma_plain_request_target()
    ensures
        placeholders("request_target"@) == 0,
{
    reveal_strlit("request_target");
    reveal_with_fuel(placeholders, 16);
}

proof fn lemma_plain_protocol()
    ensures
        placeholders("protocol"@) == 0,
{
    reveal_strlit("protocol");
    reveal_with_fuel(placeholders, 10);
}

proof fn lemma_plain_referrer()
    ensures
        placeholders("referrer"@) == 0,
{
    reveal_strlit("referrer");
    reveal_with_fuel(placeholders, 10);
}

proof fn lemma_plain_user_agent()
    ensures
        placeholders("user_agent"@) == 0,
{
    reveal_strlit("user_agent");
    reveal_with_fuel(placeholders, 12);
}

proof fn lemma_plain_extra_json()
    ensures
        placeholders("extra_json"@) == 0,
{
    reveal_strlit("extra_json");
    reveal_with_fuel(placeholders, 12);
}

proof fn lemma_plain_json_extract()
    ensures
        placeholders("json_extract_string(extra_json, "@) == 0,
{
    reveal_strlit("json_extract_string(extra_json, ");
    reveal_with_fuel(placeholders, 34);
}

proof fn lemma_plain_level()
    ensures
        placeholders("json_extract_string(extra_json, '$.level')"@) == 0,
{
    lemma_plain_json_extract();
    assert(placeholders("'$.level')"@) == 0) by {
        reveal_strlit("'$.level')");
        reveal_with_fuel(placeholders, 12);
    }
    assert("json_extract_string(extra_json, '$.level')"@ =~= "json_extract_string(extra_json, "@ + "'$.level')"@) by {
        reveal_strlit("json_extract_string(extra_json, '$.level')");
        reveal_strlit("json_extract_string(extra_json, ");
        reveal_strlit("'$.level')");
    }
    lemma_placeholders_concat("json_extract_string(extra_json, "@, "'$.level')"@);
}

proof fn lemma_plain_message()
    ensures
        placeholders("json_extract_string(extra_json, '$.message')"@) == 0,
{
    lemma_plain_json_extract();
    assert(placeholders("'$.message')"@) == 0) by {
        reveal_strlit("'$.message')");
        reveal_with_fuel(placeholders, 14);
    }
    assert("json_extract_string(extra_json, '$.message')"@ =~= "json_extract_string(extra_json, "@ + "'$.message')"@) by {
        reveal_strlit("json_extract_string(extra_json, '$.message')");
        reveal_strlit("json_extract_string(extra_json, ");
        reveal_strlit("'$.message')");
    }
    lemma_placeholders_concat("json_extract_string(extra_json, "@, "'$.message')"@);
}

proof fn lemma_columns_plain(f: CondField)
    ensures
        placeholders(column_text(f)) == 0,
{
    match f {
        CondField::Status => lemma_plain_status(),
        CondField::BytesSent => lemma_plain_bytes_sent(),
        CondField::ClientIp => lemma_plain_client_ip(),
        CondField::Method => lemma_plain_method(),
        CondField::RequestTarget => lemma_plain_request_target(),
        CondField::Protocol => lemma_plain_protocol(),
        CondField::Referrer => lemma_plain_referrer(),
        CondField::UserAgent => lemma_plain_user_agent(),
        CondField::Extra => lemma_plain_extra_json(),
        CondField::Level => lemma_plain_level(),
        CondField::Message => lemma_plain_message(),
    }
}

proof fn lemma_clause_balanced(on: bool, acc: Emitted, text: Seq<char>, ps: Seq<ParamView>)
    requires
        balanced(acc),
        placeholders(text) == ps.len(),
    ensures
        balanced(clause(on, acc, text, ps)),
{
    lemma_placeholders_concat(acc.0, text);
}

proof fn lemma_cond_balanced(field: CondField, op: CondOp, value: Seq<char>)
    requires
        cond_emit(field, op, value) is Ok,
    ensures
        placeholders(cond_emit(field, op, value)->Ok_0.0) == cond_emit(field, op, value)->Ok_0.1.len(),
{
    lemma_expr_literals();
    lemma_columns_plain(field);
    let col = column_text(field);
    let sym = match op {
        CondOp::Eq => "="@,
        CondOp::Ne => "<>"@,
        CondOp::Gt => ">"@,
        CondOp::Gte => ">="@,
        CondOp::Lt => "<"@,
        _ => "<="@,
    };
    lemma_placeholders_concat(col, " IS NULL"@);
    lemma_placeholders_concat(col, " "@);
    lemma_placeholders_concat(col + " "@, sym);
    lemma_placeholders_concat(col + " "@ + sym, " ?"@);
    lemma_placeholders_concat("contains("@, col);
    lemma_placeholders_concat("contains("@ + col, ", ?)"@);
    lemma_placeholders_concat("contains(lower("@, col);
    lemma_placeholders_concat("contains(lower("@ + col, "), lower(?))"@);
    lemma_placeholders_concat("starts_with("@, col);
    lemma_placeholders_concat("starts_with("@ + col, ", ?)"@);
    lemma_placeholders_concat("ends_with("@, col);
    lemma_placeholders_concat("ends_with("@ + col, ", ?)"@);
    lemma_placeholders_concat("regexp_matches("@, col);
    lemma_placeholders_concat("regexp_matches("@ + col, ", ?)"@);
}

proof fn lemma_wrapped(s: Seq<char>, open: Seq<char>)
    requires
        placeholders(open) == 0,
    ensures
        placeholders(open + s + ")"@) == placeholders(s),
{
    lemma_expr_literals();
    lemma_placeholders_concat(open, s);
    lemma_placeholders_concat(open + s, ")"@);
}

proof fn lemma_expr_balanced(e: FilterExpr, nodes: nat, depth: nat)
    requires
        expr_emit(e, nodes, depth) is Ok,
    ensures
        placeholders(expr_emit(e, nodes, depth)->Ok_0.0) == expr_emit(e, nodes, depth)->Ok_0.1.len(),
    decreases e, 0nat,
{
    lemma_expr_literals();
    match e {
        FilterExpr::True => {},
        FilterExpr::And { items } => {
            if items@.len() > 0 {
                lemma_items_balanced(items@, items@.len(), " AND "@, nodes + 1, depth + 1);
                let s = items_emit(items@, items@.len(), " AND "@, nodes + 1, depth + 1)->Ok_0.0;
                lemma_wrapped(s, "("@);
            }
        },
        FilterExpr::Or { items } => {
            if items@.len() > 0 {
                lemma_items_balanced(items@, items@.len(), " OR "@, nodes + 1, depth + 1);
                let s = items_emit(items@, items@.len(), " OR "@, nodes + 1, depth + 1)->Ok_0.0;
                lemma_wrapped(s, "("@);
            }
        },
        FilterExpr::Not { item } => {
            lemma_expr_balanced(*item, nodes + 1, depth + 1);
            let s = expr_emit(*item, nodes + 1, depth + 1)->Ok_0.0;
            lemma_wrapped(s, "(NOT "@);
        },
        FilterExpr::Cond { field, op, value } => {
            lemma_cond_balanced(field, op, value@);
        },
    }
}

proof fn lemma_items_balanced(items: Seq<FilterExpr>, k: nat, joiner: Seq<char>, nodes: nat, depth: nat)
    requires
        placeholders(joiner) == 0,
        items_emit(items, k, joiner, nodes, depth) is Ok,
    ensures
        placeholders(items_emit(items, k, joiner, nodes, depth)->Ok_0.0)
            == items_emit(items, k, joiner, nodes, depth)->Ok_0.1.len(),
    decreases items, k,
{
    if k == 0 || k > items.len() {
    } else {
        lemma_items_balanced(items, (k - 1) as nat, joiner, nodes, depth);
        let prev = items_emit(items, (k - 1) as nat, joiner, nodes, depth)->Ok_0;
        lemma_expr_balanced(items[k - 1], prev.2, depth);
        let s2 = expr_emit(items[k - 1], prev.2, depth)->Ok_0.0;
        let sep = if k > 1 { joiner } else { seq![] };
        assert(placeholders(seq![]) == 0);
        lemma_placeholders_concat(prev.0, sep);
        lemma_placeholders_concat(prev.0 + sep, s2);
    }
}

proof fn lemma_head_balanced(f: LogFilter)
    ensures
        balanced(filter_head(f)),
{
    lemma_filter_literals();
    lemma_active_literal();
    let a0: Emitted = ("1=1"@, seq![]);
    let a1 = clause(f.job_id is Some, a0, " AND job_id = ?"@, seq![ParamView::BigInt(f.job_id->Some_0)]);
    lemma_clause_balanced(f.job_id is Some, a0, " AND job_id = ?"@, seq![ParamView::BigInt(f.job_id->Some_0)]);
    let a2 = clause(f.source_id is Some, a1, " AND source_id = ?"@, seq![ParamView::BigInt(f.source_id->Some_0)]);
    lemma_clause_balanced(f.source_id is Some, a1, " AND source_id = ?"@, seq![ParamView::BigInt(f.source_id->Some_0)]);
    let a3 = clause(f.active_only, a2, " AND job_id IN (SELECT job_id FROM import_jobs WHERE active)"@, seq![]);
    lemma_clause_balanced(f.active_only, a2, " AND job_id IN (SELECT job_id FROM import_jobs WHERE active)"@, seq![]);
    let p4 = seq![ParamView::BigInt(f.time_from_micros->Some_0)];
    let a4 = clause(f.time_from_micros is Some, a3, " AND timestamp_utc >= make_timestamp(?)"@, p4);
    lemma_clause_balanced(f.time_from_micros is Some, a3, " AND timestamp_utc >= make_timestamp(?)"@, p4);
    let p5 = seq![ParamView::BigInt(f.time_to_micros->Some_0)];
    let a5 = clause(f.time_to_micros is Some, a4, " AND timestamp_utc < make_timestamp(?)"@, p5);
    lemma_clause_balanced(f.time_to_micros is Some, a4, " AND timestamp_utc < make_timestamp(?)"@, p5);
    let p6 = seq![ParamView::Int(f.status->Some_0 as i32)];
    lemma_clause_balanced(f.status is Some, a5, " AND status = ?"@, p6);
}

proof fn lemma_middle_balanced(f: LogFilter, head: Emitted)
    requires
        balanced(head),
        filter_middle(f, head) is Ok,
    ensures
        balanced(filter_middle(f, head)->Ok_0),
{
    lemma_filter_literals();
    let c = f.status_class->Some_0 as i32;
    let pc = seq![ParamView::Int((c * 100) as i32), ParamView::Int((c * 100 + 100) as i32)];
    let a6 = clause(f.status_class is Some, head, " AND status >= ? AND status < ?"@, pc);
    lemma_clause_balanced(f.status_class is Some, head, " AND status >= ? AND status < ?"@, pc);
    let b1 = clause(f.client_ip is Some, a6, " AND client_ip = ?"@, seq![ParamView::Text(f.client_ip->Some_0@)]);
    lemma_clause_balanced(f.client_ip is Some, a6, " AND client_ip = ?"@, seq![ParamView::Text(f.client_ip->Some_0@)]);
    let b = filter_texts(f, a6);
    lemma_clause_balanced(f.method is Some, b1, " AND method = ?"@, seq![ParamView::Text(f.method->Some_0@)]);
    let pt = seq![ParamView::Text(f.target_contains->Some_0@)];
    let b3 = clause(f.target_contains is Some, b, " AND contains(request_target, ?)"@, pt);
    lemma_clause_balanced(f.target_contains is Some, b, " AND contains(request_target, ?)"@, pt);
    let pr = seq![ParamView::Text(f.target_regex->Some_0@)];
    lemma_clause_balanced(f.target_regex is Some, b3, " AND regexp_matches(request_target, ?)"@, pr);
}

proof fn lemma_tail_balanced(f: LogFilter, mid: Emitted)
    requires
        balanced(mid),
    ensures
        balanced(filter_tail(f, mid)),
{
    lemma_kind_literal();
    lemma_bookmark_literal();
    let pk = seq![ParamView::Text(log_kind_text(f.log_kind->Some_0))];
    let lk = " AND job_id IN (SELECT job_id FROM import_jobs WHERE coalesce(log_kind, 'access') = ?)"@;
    let c1 = clause(f.log_kind is Some, mid, lk, pk);
    lemma_clause_balanced(f.log_kind is Some, mid, lk, pk);
    let bm = " AND EXISTS (SELECT 1 FROM bookmarks b WHERE b.source_id = logs.source_id AND b.line_number = logs.line_number)"@;
    lemma_clause_balanced(f.bookmarked_only, c1, bm, seq![]);
}

/// Every value of a filter is bound: in the WHERE clause of each accepted filter there
/// is exactly one `?` placeholder for each parameter.
pub proof fn lemma_filter_placeholders_match_params(f: LogFilter)
    requires
        filter_emit(f) is Ok,
    ensures
        balanced(filter_emit(f)->Ok_0),
{
    lemma_head_balanced(f);
    let head = filter_head(f);
    lemma_middle_balanced(f, head);
    let mid = filter_middle(f, head)->Ok_0;
    lemma_tail_balanced(f, mid);
    let tail = filter_tail(f, mid);
    match f.expr {
        None => {},
        Some(e) => {
            lemma_expr_balanced(e, 0, 0);
            let s = expr_emit(e, 0, 0)->Ok_0.0;
            lemma_filter_literals();
            lemma_placeholders_concat(tail.0, " AND "@);
            lemma_placeholders_concat(tail.0 + " AND "@, s);
        },
    }
}

/// The comparison that continues a time order after a key.
pub open spec fn sort_cmp(sort: SortOrder) -> Seq<char> {
    if sort == SortOrder::TimeAsc { ">"@ } else { "<"@ }
}

/// The direction of a time order.
pub open spec fn sort_dir(sort: SortOrder) -> Seq<char> {
    if sort == SortOrder::TimeAsc { "ASC"@ } else { "DESC"@ }
}

/// The statement that fetches one segment of a page: rows of the filter within the
/// committed batch bound, either with a time (in the requested order, after the cursor's
/// key) or without one (in file and line order, after the cursor's position), and at
/// most the limit of them.
pub open spec fn fetch_text(columns: Seq<char>, where_sql: Seq<char>, timed: bool, sort: SortOrder, key: Option<(Option<i64>, i64, i64)>) -> Seq<char> {
    let head = "SELECT "@ + columns + " FROM logs WHERE "@ + where_sql + " AND batch_id <= ? AND timestamp_utc IS "@;
    if timed {
        let after = match key {
            Some((Some(_), _, _)) => " AND (timestamp_utc "@ + sort_cmp(sort) + " make_timestamp(?)"@
                + " OR (timestamp_utc = make_timestamp(?)"@ + " AND (source_id > ?"@ + " OR (source_id = ?"@
                + " AND line_number > ?))))"@,
            _ => Seq::<char>::empty(),
        };
        head + "NOT NULL"@ + after + " ORDER BY timestamp_utc "@ + sort_dir(sort) + ", source_id ASC, line_number ASC"@
            + " LIMIT ?"@
    } else {
        let after = match key {
            Some(_) => " AND (source_id > ?"@ + " OR (source_id = ?"@ + " AND line_number > ?))"@,
            None => Seq::<char>::empty(),
        };
        head + "NULL"@ + after + " ORDER BY source_id ASC, line_number ASC"@ + " LIMIT ?"@
    }
}

/// The parameters of [`fetch_text`]: the filter's, the batch bound, the key's, the limit.
pub open spec fn fetch_params(base: Seq<ParamView>, max_batch_id: i64, timed: bool, key: Option<(Option<i64>, i64, i64)>, limit: i64) -> Seq<ParamView> {
    let mid = if timed {
        match key {
            Some((Some(ts), sid, line)) => seq![ParamView::BigInt(ts), ParamView::BigInt(ts), ParamView::BigInt(sid),
                ParamView::BigInt(sid), ParamView::BigInt(line)],
            _ => Seq::<ParamView>::empty(),
        }
    } else {
        match key {
            Some((_, sid, line)) => seq![ParamView::BigInt(sid), ParamView::BigInt(sid), ParamView::BigInt(line)],
            None => Seq::<ParamView>::empty(),
        }
    };
    base.push(ParamView::BigInt(max_batch_id)) + mid + seq![ParamView::BigInt(limit)]
}

fn copy_params(v: &Vec<SqlValue>) -> (r: Vec<SqlValue>)
    ensures
        params_view(r@) == params_view(v@),
{
    let mut out: Vec<SqlValue> = Vec::new();
    let mut i: usize = 0;
    while i < v.len()
        invariant
            i <= v.len(),
            params_view(out@) == params_view(v@.subrange(0, i as int)),
        decreases v.len() - i,
    {
        let p = match &v[i] {
            SqlValue::BigInt(n) => SqlValue::BigInt(*n),
            SqlValue::Int(n) => SqlValue::Int(*n),
            SqlValue::Text(t) => SqlValue::Text(t.clone()),
        };
        push_param(&mut out, p);
        i = i + 1;
        assert(params_view(v@.subrange(0, i as int)) =~= params_view(v@.subrange(0, i - 1)).push(param_view(v@[i - 1])));
    }
    assert(v@.subrange(0, v.len() as int) =~= v@);
    out
}

/// Builds the statement and parameters that fetch one segment of a page.
pub fn fetch_sql(
    columns: &str,
    base: &SqlParts,
    max_batch_id: i64,
    timed: bool,
    sort: SortOrder,
    key: Option<(Option<i64>, i64, i64)>,
    limit: i64,
) -> (r: (String, Vec<SqlValue>))
    ensures
        r.0@ == fetch_text(columns@, base.where_sql@, timed, sort, key),
        params_view(r.1@) == fetch_params(params_view(base.params@), max_batch_id, timed, key, limit),
{
    let mut out: Vec<char> = Vec::new();
    let mut params = copy_params(&base.params);
    let ghost p0 = params_view(params@);
    push_str(&mut out, "SELECT ");
    push_str(&mut out, columns);
    push_str(&mut out, " FROM logs WHERE ");
    push_str(&mut out, base.where_sql.as_str());
    push_str(&mut out, " AND batch_id <= ? AND timestamp_utc IS ");
    push_param(&mut params, SqlValue::BigInt(max_batch_id));
    let asc = match sort {
        SortOrder::TimeAsc => true,
        SortOrder::TimeDesc => false,
    };
    if timed {
        push_str(&mut out, "NOT NULL");
        match key {
            Some((Some(ts), sid, line)) => {
                push_str(&mut out, " AND (timestamp_utc ");
                push_str(&mut out, if asc { ">" } else { "<" });
                push_str(&mut out, " make_timestamp(?)");
                push_str(&mut out, " OR (timestamp_utc = make_timestamp(?)");
                push_str(&mut out, " AND (source_id > ?");
                push_str(&mut out, " OR (source_id = ?");
                push_str(&mut out, " AND line_number > ?))))");
                push_param(&mut params, SqlValue::BigInt(ts));
                push_param(&mut params, SqlValue::BigInt(ts));
                push_param(&mut params, SqlValue::BigInt(sid));
                push_param(&mut params, SqlValue::BigInt(sid));
                push_param(&mut params, SqlValue::BigInt(line));
            },
            _ => {},
        }
        push_str(&mut out, " ORDER BY timestamp_utc ");
        push_str(&mut out, if asc { "ASC" } else { "DESC" });
        push_str(&mut out, ", source_id ASC, line_number ASC");
    } else {
        push_str(&mut out, "NULL");
        match key {
            Some((_, sid, line)) => {
                push_str(&mut out, " AND (source_id > ?");
                push_str(&mut out, " OR (source_id = ?");
                push_str(&mut out, " AND line_number > ?))");
                push_param(&mut params, SqlValue::BigInt(sid));
                push_param(&mut params, SqlValue::BigInt(sid));
                push_param(&mut params, SqlValue::BigInt(line));
            },
            None => {},
        }
        push_str(&mut out, " ORDER BY source_id ASC, line_number ASC");
    }
    push_str(&mut out, " LIMIT ?");
    push_param(&mut params, SqlValue::BigInt(limit));
    assert(out@ =~= fetch_text(columns@, base.where_sql@, timed, sort, key));
    assert(params_view(params@) =~= fetch_params(p0, max_batch_id, timed, key, limit));
    (chars_to_string(&out), params)
}

proof fn lemma_fetch_plain_0()
    ensures
        placeholders("SELECT "@) == 0,
{
    reveal_strlit("SELECT ");
    reveal_with_fuel(placeholders, 9);
}

proof fn lemma_fetch_plain_1()
    ensures
        placeholders(" FROM logs WHERE "@) == 0,
{
    reveal_strlit(" FROM logs WHERE ");
    reveal_with_fuel(placeholders, 19);
}

proof fn lemma_fetch_plain_2()
    ensures
        placeholders("NOT NULL"@) == 0,
{
    reveal_strlit("NOT NULL");
    reveal_with_fuel(placeholders, 10);
}

proof fn lemma_fetch_plain_3()
    ensures
        placeholders("NULL"@) == 0,
{
    reveal_strlit("NULL");
    reveal_with_fuel(placeholders, 6);
}

proof fn lemma_fetch_plain_4()
    ensures
        placeholders(" AND (timestamp_utc "@) == 0,
{
    reveal_strlit(" AND (timestamp_utc ");
    reveal_with_fuel(placeholders, 22);
}

proof fn lemma_fetch_plain_5()
    ensures
        placeholders(">"@) == 0,
{
    reveal_strlit(">");
    reveal_with_fuel(placeholders, 3);
}

proof fn lemma_fetch_plain_6()
    ensures
        placeholders("<"@) == 0,
{
    reveal_strlit("<");
    reveal_with_fuel(placeholders, 3);
}

proof fn lemma_fetch_plain_7()
    ensures
        placeholders(" ORDER BY timestamp_utc "@) == 0,
{
    reveal_strlit(" ORDER BY timestamp_utc ");
    reveal_with_fuel(placeholders, 26);
}

proof fn lemma_fetch_plain_8()
    ensures
        placeholders("ASC"@) == 0,
{
    reveal_strlit("ASC");
    reveal_with_fuel(placeholders, 5);
}

proof fn lemma_fetch_plain_9()
    ensures
        placeholders("DESC"@) == 0,
{
    reveal_strlit("DESC");
    reveal_with_fuel(placeholders, 6);
}

proof fn lemma_fetch_plain_10()
    ensures
        placeholders(", source_id ASC, line_number ASC"@) == 0,
{
    reveal_strlit(", source_id ASC, line_number ASC");
    reveal_with_fuel(placeholders, 34);
}

proof fn lemma_fetch_plain_11()
    ensures
        placeholders(" ORDER BY source_id ASC, line_number ASC"@) == 0,
{
    reveal_strlit(" ORDER BY source_id ASC, line_number ASC");
    reveal_with_fuel(placeholders, 42);
}

proof fn lemma_fetch_bound_0()
    ensures
        placeholders(" AND batch_id <= ? AND timestamp_utc IS "@) == 1,
{
    reveal_strlit(" AND batch_id <= ? AND timestamp_utc IS ");
    reveal_with_fuel(placeholders, 42);
}

proof fn lemma_fetch_bound_1()
    ensures
        placeholders(" make_timestamp(?)"@) == 1,
{
    reveal_strlit(" make_timestamp(?)");
    reveal_with_fuel(placeholders, 20);
}

proof fn lemma_fetch_bound_2()
    ensures
        placeholders(" OR (timestamp_utc = make_timestamp(?)"@) == 1,
{
    reveal_strlit(" OR (timestamp_utc = make_timestamp(?)");
    reveal_with_fuel(placeholders, 40);
}

proof fn lemma_fetch_bound_3()
    ensures
        placeholders(" AND (source_id > ?"@) == 1,
{
    reveal_strlit(" AND (source_id > ?");
    reveal_with_fuel(placeholders, 21);
}

proof fn lemma_fetch_bound_4()
    ensures
        placeholders(" OR (source_id = ?"@) == 1,
{
    reveal_strlit(" OR (source_id = ?");
    reveal_with_fuel(placeholders, 20);
}

proof fn lemma_fetch_bound_5()
    ensures
        placeholders(" AND line_number > ?))))"@) == 1,
{
    reveal_strlit(" AND line_number > ?))))");
    reveal_with_fuel(placeholders, 26);
}

proof fn lemma_fetch_bound_6()
    ensures
        placeholders(" LIMIT ?"@) == 1,
{
    reveal_strlit(" LIMIT ?");
    reveal_with_fuel(placeholders, 10);
}

proof fn lemma_fetch_bound_7()
    ensures
        placeholders(" AND line_number > ?))"@) == 1,
{
    reveal_strlit(" AND line_number > ?))");
    reveal_with_fuel(placeholders, 24);
}

proof fn lemma_fetch_plain_literals()
    ensures
        placeholders("SELECT "@) == 0,
        placeholders(" FROM logs WHERE "@) == 0,
        placeholders("NOT NULL"@) == 0,
        placeholders("NULL"@) == 0,
        placeholders(" AND (timestamp_utc "@) == 0,
        placeholders(">"@) == 0,
        placeholders("<"@) == 0,
        placeholders(" ORDER BY timestamp_utc "@) == 0,
        placeholders("ASC"@) == 0,
        placeholders("DESC"@) == 0,
        placeholders(", source_id ASC, line_number ASC"@) == 0,
        placeholders(" ORDER BY source_id ASC, line_number ASC"@) == 0,
{
    lemma_fetch_plain_0();
    lemma_fetch_plain_1();
    lemma_fetch_plain_2();
    lemma_fetch_plain_3();
    lemma_fetch_plain_4();
    lemma_fetch_plain_5();
    lemma_fetch_plain_6();
    lemma_fetch_plain_7();
    lemma_fetch_plain_8();
    lemma_fetch_plain_9();
    lemma_fetch_plain_10();
    lemma_fetch_plain_11();
}

proof fn lemma_fetch_bound_literals()
    ensures
        placeholders(" AND batch_id <= ? AND timestamp_utc IS "@) == 1,
        placeholders(" make_timestamp(?)"@) == 1,
        placeholders(" OR (timestamp_utc = make_timestamp(?)"@) == 1,
        placeholders(" AND (source_id > ?"@) == 1,
        placeholders(" OR (source_id = ?"@) == 1,
        placeholders(" AND line_number > ?))))"@) == 1,
        placeholders(" LIMIT ?"@) == 1,
        placeholders(" AND line_number > ?))"@) == 1,
{
    lemma_fetch_bound_0();
    lemma_fetch_bound_1();
    lemma_fetch_bound_2();
    lemma_fetch_bound_3();
    lemma_fetch_bound_4();
    lemma_fetch_bound_5();
    lemma_fetch_bound_6();
    lemma_fetch_bound_7();
}

/// Placeholders of `a + b + c` when the parts are counted.
proof fn lemma_cat3(a: Seq<char>, b: Seq<char>, c: Seq<char>)
    ensures
        placeholders(a + b + c) == placeholders(a) + placeholders(b) + placeholders(c),
{
    lemma_placeholders_concat(a, b);
    lemma_placeholders_concat(a + b, c);
}

/// Every value of a page statement is bound: with a filter clause that holds one
/// placeholder per parameter, and columns that hold none, the statement that fetches a
/// page segment holds exactly one placeholder for each of its parameters.
pub proof fn lemma_fetch_placeholders_match_params(
    columns: Seq<char>,
    where_sql: Seq<char>,
    base: Seq<ParamView>,
    max_batch_id: i64,
    timed: bool,
    sort: SortOrder,
    key: Option<(Option<i64>, i64, i64)>,
    limit: i64,
)
    requires
        placeholders(columns) == 0,
        placeholders(where_sql) == base.len(),
    ensures
        placeholders(fetch_text(columns, where_sql, timed, sort, key))
            == fetch_params(base, max_batch_id, timed, key, limit).len(),
{
    lemma_fetch_plain_literals();
    lemma_fetch_bound_literals();
    let h1 = "SELECT "@ + columns;
    lemma_placeholders_concat("SELECT "@, columns);
    let h2 = h1 + " FROM logs WHERE "@;
    lemma_placeholders_concat(h1, " FROM logs WHERE "@);
    let h3 = h2 + where_sql;
    lemma_placeholders_concat(h2, where_sql);
    let head = h3 + " AND batch_id <= ? AND timestamp_utc IS "@;
    lemma_placeholders_concat(h3, " AND batch_id <= ? AND timestamp_utc IS "@);
    assert(placeholders(head) == base.len() + 1);
    assert(placeholders(sort_cmp(sort)) == 0);
    assert(placeholders(sort_dir(sort)) == 0);
    assert(placeholders(Seq::<char>::empty()) == 0);
    if timed {
        let after = match key {
            Some((Some(_), _, _)) => " AND (timestamp_utc "@ + sort_cmp(sort) + " make_timestamp(?)"@
                + " OR (timestamp_utc = make_timestamp(?)"@ + " AND (source_id > ?"@ + " OR (source_id = ?"@
                + " AND line_number > ?))))"@,
            _ => Seq::<char>::empty(),
        };
        if key matches Some((Some(_), _, _)) {
            let a1 = " AND (timestamp_utc "@ + sort_cmp(sort) + " make_timestamp(?)"@;
            lemma_cat3(" AND (timestamp_utc "@, sort_cmp(sort), " make_timestamp(?)"@);
            let a2 = a1 + " OR (timestamp_utc = make_timestamp(?)"@ + " AND (source_id > ?"@;
            lemma_cat3(a1, " OR (timestamp_utc = make_timestamp(?)"@, " AND (source_id > ?"@);
            lemma_cat3(a2, " OR (source_id = ?"@, " AND line_number > ?))))"@);
            assert(placeholders(after) == 5);
        }
        let t1 = head + "NOT NULL"@ + after;
        lemma_cat3(head, "NOT NULL"@, after);
        let t2 = t1 + " ORDER BY timestamp_utc "@ + sort_dir(sort);
        lemma_cat3(t1, " ORDER BY timestamp_utc "@, sort_dir(sort));
        lemma_cat3(t2, ", source_id ASC, line_number ASC"@, " LIMIT ?"@);
    } else {
        let after = match key {
            Some(_) => " AND (source_id > ?"@ + " OR (source_id = ?"@ + " AND line_number > ?))"@,
            None => Seq::<char>::empty(),
        };
        if key is Some {
            lemma_cat3(" AND (source_id > ?"@, " OR (source_id = ?"@, " AND line_number > ?))"@);
            assert(placeholders(after) == 3);
        }
        let t1 = head + "NULL"@ + after;
        lemma_cat3(head, "NULL"@, after);
        lemma_cat3(t1, " ORDER BY source_id ASC, line_number ASC"@, " LIMIT ?"@);
    }
}

/// What DuckDB's string tests `starts_with`, `ends_with` and `contains` say of a column
/// value `x` and a parameter `p`: `p` begins `x`, ends `x`, or occurs in `x`.
pub open spec fn sql_string_test(name: Seq<char>, x: Seq<char>, p: Seq<char>) -> bool {
    if name == "starts_with"@ {
        p.len() <= x.len() && x.subrange(0, p.len() as int) == p
    } else if name == "ends_with"@ {
        p.len() <= x.len() && x.subrange(x.len() - p.len(), x.len() as int) == p
    } else if name == "contains"@ {
        exists|i: int| 0 <= i && i + p.len() <= x.len() && #[trigger] x.subrange(i, i + p.len()) == p
    } else {
        false
    }
}

/// What a text condition asks of a column value `x`: that the condition's value `p` is its
/// prefix, its suffix, or a part of it.
pub open spec fn text_cond_holds(op: CondOp, x: Seq<char>, p: Seq<char>) -> bool {
    match op {
        CondOp::StartsWith => exists|q: Seq<char>| x == p + q,
        CondOp::EndsWith => exists|q: Seq<char>| x == q + p,
        CondOp::Contains => exists|a: Seq<char>, b: Seq<char>| x == a + p + b,
        _ => false,
    }
}

/// What SQL's comparison operators say of two numbers.
pub open spec fn sql_compare(sym: Seq<char>, a: int, b: int) -> bool {
    if sym == "="@ {
        a == b
    } else if sym == "<>"@ {
        a != b
    } else if sym == ">"@ {
        a > b
    } else if sym == ">="@ {
        a >= b
    } else if sym == "<"@ {
        a < b
    } else if sym == "<="@ {
        a <= b
    } else {
        false
    }
}

/// What a comparison condition asks of a column value `a` against the value `b`.
pub open spec fn compare_cond_holds(op: CondOp, a: int, b: int) -> bool {
    match op {
        CondOp::Eq => a == b,
        CondOp::Ne => a != b,
        CondOp::Gt => a > b,
        CondOp::Gte => a >= b,
        CondOp::Lt => a < b,
        CondOp::Lte => a <= b,
        _ => false,
    }
}

/// A condition emits a call of the SQL string test `name` on its column and the value.
pub open spec fn emits_string_test(field: CondField, op: CondOp, value: Seq<char>, name: Seq<char>) -> bool {
    &&& cond_emit(field, op, value) == Ok::<(Seq<char>, Seq<ParamView>), Seq<char>>(
        (name + "("@ + column_text(field) + ", ?)"@, seq![ParamView::Text(value)]))
    &&& forall|x: Seq<char>| #[trigger] sql_string_test(name, x, value) == text_cond_holds(op, x, value)
}

/// A condition emits its column, the SQL comparison `sym` and one parameter `p`, and
/// the comparison means what the condition asks against the value `n`.
pub open spec fn emits_comparison(field: CondField, op: CondOp, value: Seq<char>, sym: Seq<char>, p: ParamView, n: int) -> bool {
    &&& cond_emit(field, op, value) == Ok::<(Seq<char>, Seq<ParamView>), Seq<char>>(
        (column_text(field) + " "@ + sym + " ?"@, seq![p]))
    &&& forall|a: int| #[trigger] sql_compare(sym, a, n) == compare_cond_holds(op, a, n)
}

/// A text equality or inequality emits its column, the SQL operator `sym` (`=` exactly for
/// equality, `<>` exactly for inequality) and the value as the parameter.
pub open spec fn emits_text_comparison(field: CondField, op: CondOp, value: Seq<char>, sym: Seq<char>) -> bool {
    &&& cond_emit(field, op, value) == Ok::<(Seq<char>, Seq<ParamView>), Seq<char>>(
        (column_text(field) + " "@ + sym + " ?"@, seq![ParamView::Text(value)]))
    &&& (sym == "="@) == (op == CondOp::Eq)
    &&& (sym == "<>"@) == (op == CondOp::Ne)
}

proof fn lemma_string_test_names()
    ensures
        "ends_with"@ != "starts_with"@,
        "contains"@ != "starts_with"@,
        "contains"@ != "ends_with"@,
{
    reveal_strlit("ends_with");
    reveal_strlit("starts_with");
    reveal_strlit("contains");
    assert("ends_with"@[0] != "starts_with"@[0]);
    assert("contains"@[0] != "starts_with"@[0]);
    assert("contains"@[0] != "ends_with"@[0]);
}

proof fn lemma_prefix_split(x: Seq<char>, p: Seq<char>)
    ensures
        (p.len() <= x.len() && x.subrange(0, p.len() as int) == p) == exists|q: Seq<char>| x == p + q,
        (p.len() <= x.len() && x.subrange(x.len() - p.len(), x.len() as int) == p) == exists|q: Seq<char>| x == q + p,
{
    if p.len() <= x.len() && x.subrange(0, p.len() as int) == p {
        assert(x =~= p + x.subrange(p.len() as int, x.len() as int));
    }
    if exists|q: Seq<char>| x == p + q {
        let q = choose|q: Seq<char>| x == p + q;
        assert(x.subrange(0, p.len() as int) =~= p);
    }
    if p.len() <= x.len() && x.subrange(x.len() - p.len(), x.len() as int) == p {
        assert(x =~= x.subrange(0, x.len() - p.len()) + p);
    }
    if exists|q: Seq<char>| x == q + p {
        let q = choose|q: Seq<char>| x == q + p;
        assert(x.subrange(x.len() - p.len(), x.len() as int) =~= p);
    }
}

proof fn lemma_contains_split(x: Seq<char>, p: Seq<char>)
    ensures
        (exists|i: int| 0 <= i && i + p.len() <= x.len() && #[trigger] x.subrange(i, i + p.len()) == p)
            == exists|a: Seq<char>, b: Seq<char>| x == a + p + b,
{
    if exists|i: int| 0 <= i && i + p.len() <= x.len() && #[trigger] x.subrange(i, i + p.len()) == p {
        let i = choose|i: int| 0 <= i && i + p.len() <= x.len() && #[trigger] x.subrange(i, i + p.len()) == p;
        let a = x.subrange(0, i);
        let b = x.subrange(i + p.len(), x.len() as int);
        assert(x =~= a + p + b);
    }
    if exists|a: Seq<char>, b: Seq<char>| x == a + p + b {
        let (a, b) = choose|a: Seq<char>, b: Seq<char>| x == a + p + b;
        assert(x.subrange(a.len() as int, (a.len() + p.len()) as int) =~= p);
    }
}

/// A text condition selects what it says: a prefix, suffix or substring condition on a
/// text column emits the SQL string test whose meaning is exactly that (`starts_with`,
/// `ends_with`, `contains`) on the column, bound to the value.
pub proof fn lemma_text_condition_meaning(field: CondField, op: CondOp, value: Seq<char>)
    requires
        op == CondOp::StartsWith || op == CondOp::EndsWith || op == CondOp::Contains,
        field != CondField::Status && field != CondField::BytesSent,
        byte_len(value) <= MAX_SEARCH_BYTES,
    ensures
        exists|name: Seq<char>| #[trigger] emits_string_test(field, op, value, name),
{
    lemma_string_test_names();
    let name = if op == CondOp::StartsWith {
        "starts_with"@
    } else if op == CondOp::EndsWith {
        "ends_with"@
    } else {
        "contains"@
    };
    assert forall|x: Seq<char>| #[trigger] sql_string_test(name, x, value) == text_cond_holds(op, x, value) by {
        lemma_prefix_split(x, value);
        lemma_contains_split(x, value);
    }
    reveal_strlit("starts_with");
    reveal_strlit("ends_with");
    reveal_strlit("contains");
    reveal_strlit("starts_with(");
    reveal_strlit("ends_with(");
    reveal_strlit("contains(");
    reveal_strlit("(");
    assert("starts_with("@ =~= "starts_with"@ + "("@);
    assert("ends_with("@ =~= "ends_with"@ + "("@);
    assert("contains("@ =~= "contains"@ + "("@);
    let col = column_text(field);
    assert(name + "("@ + col + ", ?)"@ =~= (name + "("@) + col + ", ?)"@);
    assert(emits_string_test(field, op, value, name));
}

/// A comparison selects what it says: on a numeric column with an integer value `n`, a
/// comparison condition emits the column, the SQL operator that compares as the condition
/// asks, and `n` as the parameter; on a text column, equality and inequality do the same
/// with the text value.
pub proof fn lemma_comparison_meaning(field: CondField, op: CondOp, value: Seq<char>)
    requires
        op == CondOp::Eq || op == CondOp::Ne || op == CondOp::Gt || op == CondOp::Gte || op == CondOp::Lt
            || op == CondOp::Lte,
        byte_len(value) <= MAX_SEARCH_BYTES,
    ensures
        (field == CondField::Status || field == CondField::BytesSent) && i64_value(trimmed(value)) is Some ==> exists|sym: Seq<char>|
            #[trigger] emits_comparison(field, op, value, sym, ParamView::BigInt(i64_value(trimmed(value))->Some_0),
                i64_value(trimmed(value))->Some_0 as int),
        field != CondField::Status && field != CondField::BytesSent && (op == CondOp::Eq || op == CondOp::Ne)
            ==> exists|sym: Seq<char>| #[trigger] emits_text_comparison(field, op, value, sym),
{
    reveal_strlit("=");
    reveal_strlit("<>");
    reveal_strlit(">");
    reveal_strlit(">=");
    reveal_strlit("<");
    reveal_strlit("<=");
    let sym = match op {
        CondOp::Eq => "="@,
        CondOp::Ne => "<>"@,
        CondOp::Gt => ">"@,
        CondOp::Gte => ">="@,
        CondOp::Lt => "<"@,
        _ => "<="@,
    };
    assert("<>"@[0] != "="@[0] && ">"@[0] != "="@[0] && ">="@[0] != "="@[0] && "<"@[0] != "="@[0]);
    assert("<="@[0] != "="@[0] && ">"@[0] != "<>"@[0] && ">="@[0] != "<>"@[0] && "<="@.len() == "<>"@.len());
    assert("<="@[1] != "<>"@[1] && ">="@.len() != ">"@.len() && "<"@[0] != ">"@[0] && "<="@[0] != ">"@[0]);
    assert("<"@[0] != ">="@[0] && "<="@[0] != ">="@[0] && "<="@.len() != "<"@.len() && "<"@.len() != "<>"@.len());
    if (field == CondField::Status || field == CondField::BytesSent) && i64_value(trimmed(value)) is Some {
        let n = i64_value(trimmed(value))->Some_0;
        assert forall|a: int| #[trigger] sql_compare(sym, a, n as int) == compare_cond_holds(op, a, n as int) by {}
        assert(emits_comparison(field, op, value, sym, ParamView::BigInt(n), n as int));
    }
    if field != CondField::Status && field != CondField::BytesSent && (op == CondOp::Eq || op == CondOp::Ne) {
        assert(emits_text_comparison(field, op, value, sym));
    }
}

} // verus!

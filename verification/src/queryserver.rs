//! The HTTP lookup half of OSCQuery: what the host answers to a request for a
//! path and an optional attribute query.
use vstd::prelude::*;
use vstd::string::*;
use crate::format::{OSCQHostInfo, OSCQNode, OSCValue};
use crate::nodes::{
    built_from, find_node, joined_path, listed, node_at, path_pieces, split_path,
};
use crate::text::{decimal_chars, decimal_string, starts_with};

verus! {

/// The media type of a reply's body.
#[derive(PartialEq, Eq, Structural, Clone, Copy, Debug)]
pub enum ContentType {
    TextPlain,
    ApplicationJson,
}

/// A reply to an OSCQuery HTTP request. The first three are served with
/// status 200 as `application/json`, holding the JSON document of what they
/// carry; `Plain` is served with its own status, type and body.
pub enum QueryReply<'a> {
    HostInfo(&'a OSCQHostInfo),
    Node(&'a OSCQNode),
    Value(&'a Vec<OSCValue>),
    Plain { status: u16, content_type: ContentType, body: String },
}

/// The content of a reply: what it carries, and a plain body by its characters.
pub enum ReplyModel {
    HostInfo(OSCQHostInfo),
    Node(OSCQNode),
    Value(Seq<OSCValue>),
    Plain(u16, ContentType, Seq<char>),
}

impl<'a> QueryReply<'a> {
    pub open spec fn model(&self) -> ReplyModel {
        match self {
            QueryReply::HostInfo(h) => ReplyModel::HostInfo(**h),
            QueryReply::Node(n) => ReplyModel::Node(**n),
            QueryReply::Value(v) => ReplyModel::Value(v@),
            QueryReply::Plain { status, content_type, body } => ReplyModel::Plain(
                *status,
                *content_type,
                body@,
            ),
        }
    }
}

/// The answer to the attribute query `qs` about the node `n`.
pub open spec fn attribute_answer(n: OSCQNode, qs: Seq<char>) -> ReplyModel {
    if "FULL_PATH"@.is_prefix_of(qs) {
        ReplyModel::Plain(200, ContentType::TextPlain, n.full_path@)
    } else if "TYPE"@.is_prefix_of(qs) {
        ReplyModel::Plain(
            200,
            ContentType::TextPlain,
            match n.ty {
                Some(t) => t@,
                None => ""@,
            },
        )
    } else if "VALUE"@.is_prefix_of(qs) {
        match n.value {
            Some(v) => ReplyModel::Value(v@),
            None => if n.access matches Some(a) && a & 1 == 0 {
                ReplyModel::Plain(204, ContentType::TextPlain, ""@)
            } else {
                ReplyModel::Plain(200, ContentType::ApplicationJson, "{}"@)
            },
        }
    } else if "ACCESS"@.is_prefix_of(qs) {
        ReplyModel::Plain(
            200,
            ContentType::TextPlain,
            match n.access {
                Some(a) => decimal_chars(a as nat),
                None => "0"@,
            },
        )
    } else {
        ReplyModel::Plain(400, ContentType::TextPlain, "unsupported attribute query"@)
    }
}

/// The answer to a request for `path` with the query string `query`: a query
/// that begins with `HOST_INFO` gets the host description; otherwise a path
/// whose pieces lead nowhere gets 404, no query gets the node's document, and
/// an attribute query gets that attribute.
pub open spec fn query_answer(
    path: Seq<char>,
    query: Option<Seq<char>>,
    host_info: OSCQHostInfo,
    root: OSCQNode,
) -> ReplyModel {
    if query matches Some(qs) && "HOST_INFO"@.is_prefix_of(qs) {
        ReplyModel::HostInfo(host_info)
    } else {
        match node_at(root, path_pieces(path)) {
            None => ReplyModel::Plain(404, ContentType::TextPlain, "method not found"@),
            Some(n) => match query {
                None => ReplyModel::Node(n),
                Some(qs) => attribute_answer(n, qs),
            },
        }
    }
}

/// The view of an optional query string.
pub open spec fn query_view(query: Option<&str>) -> Option<Seq<char>> {
    match query {
        Some(q) => Some(q@),
        None => None,
    }
}

fn plain(status: u16, content_type: ContentType, body: &str) -> (res: QueryReply<'static>)
    ensures
        res.model() == ReplyModel::Plain(status, content_type, body@),
{
    QueryReply::Plain { status, content_type, body: body.to_owned() }
}

fn answer_attribute<'a>(node: &'a OSCQNode, query: &str) -> (res: QueryReply<'a>)
    ensures
        res.model() == attribute_answer(*node, query@),
{
    if starts_with(query, "FULL_PATH") {
        QueryReply::Plain {
            status: 200,
            content_type: ContentType::TextPlain,
            body: node.full_path.clone(),
        }
    } else if starts_with(query, "TYPE") {
        match &node.ty {
            Some(ty) => plain(200, ContentType::TextPlain, ty.as_str()),
            None => plain(200, ContentType::TextPlain, ""),
        }
    } else if starts_with(query, "VALUE") {
        match &node.value {
            Some(value) => QueryReply::Value(value),
            None => {
                if node.access.is_some() && node.access.unwrap() & 1 == 0 {
                    plain(204, ContentType::TextPlain, "")
                } else {
                    plain(200, ContentType::ApplicationJson, "{}")
                }
            },
        }
    } else if starts_with(query, "ACCESS") {
        match node.access {
            Some(access) => QueryReply::Plain {
                status: 200,
                content_type: ContentType::TextPlain,
                body: decimal_string(access),
            },
            None => plain(200, ContentType::TextPlain, "0"),
        }
    } else {
        plain(400, ContentType::TextPlain, "unsupported attribute query")
    }
}

/// Answers an OSCQuery HTTP request for `path` with the query string `query`,
/// from the host description `host_info` and the address tree `root`.
pub fn query_service<'a>(
    path: &str,
    query: Option<&str>,
    host_info: &'a OSCQHostInfo,
    root: &'a OSCQNode,
) -> (res: QueryReply<'a>)
    ensures
        res.model() == query_answer(path@, query_view(query), *host_info, *root),
{
    if let Some(q) = query {
        if starts_with(q, "HOST_INFO") {
            return QueryReply::HostInfo(host_info);
        }
    }
    let pieces = split_path(path);
    match find_node(root, &pieces) {
        None => plain(404, ContentType::TextPlain, "method not found"),
        Some(node) => match query {
            None => QueryReply::Node(node),
            Some(q) => answer_attribute(node, q),
        },
    }
}

proof fn lemma_not_prefix(a: Seq<char>, b: Seq<char>, i: int)
    requires
        0 <= i < a.len(),
        i < b.len(),
        a[i] != b[i],
    ensures
        !a.is_prefix_of(b),
{
    if a.is_prefix_of(b) {
        assert(a[i] == b.subrange(0, a.len() as int)[i]);
    }
}

/// In the tree of a list of addresses, each listed address (other than the
/// root) answers a `FULL_PATH` query with the address its pieces join to, a
/// `TYPE` query with an empty text, a `VALUE` query with an empty JSON
/// object, and an `ACCESS` query with `0`.
pub proof fn listed_address_attributes(
    root: OSCQNode,
    dirs: Seq<Seq<char>>,
    host_info: OSCQHostInfo,
    k: int,
)
    requires
        built_from(root, dirs),
        0 <= k < dirs.len(),
        path_pieces(dirs[k]).len() > 0,
    ensures
        query_answer(dirs[k], Some("FULL_PATH"@), host_info, root) == ReplyModel::Plain(
            200,
            ContentType::TextPlain,
            joined_path(path_pieces(dirs[k])),
        ),
        query_answer(dirs[k], Some("TYPE"@), host_info, root) == ReplyModel::Plain(
            200,
            ContentType::TextPlain,
            ""@,
        ),
        query_answer(dirs[k], Some("VALUE"@), host_info, root) == ReplyModel::Plain(
            200,
            ContentType::ApplicationJson,
            "{}"@,
        ),
        query_answer(dirs[k], Some("ACCESS"@), host_info, root) == ReplyModel::Plain(
            200,
            ContentType::TextPlain,
            "0"@,
        ),
{
    let ps = path_pieces(dirs[k]);
    assert(ps.is_prefix_of(ps));
    assert(listed(dirs, ps));
    assert(node_at(root, ps) is Some);
    reveal_strlit("HOST_INFO");
    reveal_strlit("FULL_PATH");
    reveal_strlit("TYPE");
    reveal_strlit("VALUE");
    reveal_strlit("ACCESS");
    lemma_not_prefix("HOST_INFO"@, "FULL_PATH"@, 0);
    assert(!"HOST_INFO"@.is_prefix_of("TYPE"@));
    assert(!"HOST_INFO"@.is_prefix_of("VALUE"@));
    assert(!"HOST_INFO"@.is_prefix_of("ACCESS"@));
    assert("FULL_PATH"@.is_prefix_of("FULL_PATH"@));
    assert(!"FULL_PATH"@.is_prefix_of("TYPE"@));
    assert("TYPE"@.is_prefix_of("TYPE"@));
    assert(!"FULL_PATH"@.is_prefix_of("VALUE"@));
    lemma_not_prefix("TYPE"@, "VALUE"@, 0);
    assert("VALUE"@.is_prefix_of("VALUE"@));
    assert(!"FULL_PATH"@.is_prefix_of("ACCESS"@));
    lemma_not_prefix("TYPE"@, "ACCESS"@, 0);
    assert(!"VALUE"@.is_prefix_of("ACCESS"@));
    assert("ACCESS"@.is_prefix_of("ACCESS"@));
}

/// In the tree of a list of addresses, a path whose pieces are not a prefix
/// of any listed address is answered with 404, unless the query asks for the
/// host description.
pub proof fn unlisted_path_not_found(
    root: OSCQNode,
    dirs: Seq<Seq<char>>,
    host_info: OSCQHostInfo,
    path: Seq<char>,
    query: Option<Seq<char>>,
)
    requires
        built_from(root, dirs),
        path_pieces(path).len() > 0,
        !listed(dirs, path_pieces(path)),
        !(query matches Some(qs) && "HOST_INFO"@.is_prefix_of(qs)),
    ensures
        query_answer(path, query, host_info, root) == ReplyModel::Plain(
            404,
            ContentType::TextPlain,
            "method not found"@,
        ),
{
    assert(node_at(root, path_pieces(path)) is None);
}

/// A `VALUE` query about a node that holds no value is answered 204 with an
/// empty text exactly when the node's access is given and its readable bit
/// (bit 0) is clear, and 200 with the empty JSON object `{}` otherwise: in
/// particular when no access is given, or the node is readable (access 1 or 3).
pub proof fn value_query_without_value(
    path: Seq<char>,
    qs: Seq<char>,
    host_info: OSCQHostInfo,
    root: OSCQNode,
    n: OSCQNode,
)
    requires
        node_at(root, path_pieces(path)) == Some(n),
        n.value is None,
        "VALUE"@.is_prefix_of(qs),
    ensures
        (query_answer(path, Some(qs), host_info, root) == ReplyModel::Plain(
            204,
            ContentType::TextPlain,
            ""@,
        )) <==> (n.access matches Some(a) && a % 2 == 0),
        (query_answer(path, Some(qs), host_info, root) == ReplyModel::Plain(
            200,
            ContentType::ApplicationJson,
            "{}"@,
        )) <==> !(n.access matches Some(a) && a % 2 == 0),
{
    reveal_strlit("VALUE");
    reveal_strlit("HOST_INFO");
    reveal_strlit("FULL_PATH");
    reveal_strlit("TYPE");
    reveal_strlit("{}");
    reveal_strlit("");
    assert(qs[0] == qs.subrange(0, 5)[0]);
    lemma_not_prefix("HOST_INFO"@, qs, 0);
    lemma_not_prefix("FULL_PATH"@, qs, 0);
    lemma_not_prefix("TYPE"@, qs, 0);
    if let Some(a) = n.access {
        assert(a & 1 == 0 <==> a % 2 == 0) by (bit_vector);
    }
    assert(""@.len() == 0);
    assert("{}"@.len() == 2);
}

} // verus!

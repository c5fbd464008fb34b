use crate::buffer::{bytes_clone, bytes_from_vec, bytes_len, bytes_new, bytes_view};
use crate::specification::{Data, Operation, PathItem, Specification, TestBody, TestParameter};
use crate::urls::{
    header_name_valid, header_value_valid, join_url, parse_url, url_append_query, url_joined,
    url_parsed, url_push_segment, url_with_query, url_with_segment, valid_header_name,
    valid_header_value,
};
use vstd::prelude::*;
use vstd::utf8::encode_utf8;

verus! {

/// HTTP method of a request template. Only GET and POST take part in a
/// load test.
#[derive(Clone, Copy, PartialEq, Eq, Structural, Debug)]
pub enum Method {
    Get,
    Post,
}

/// The mathematical content of one request template: the serialized URL,
/// the method, the ordered header list, and the body bytes.
pub ghost struct TemplateModel {
    pub url: Seq<char>,
    pub method: Method,
    pub headers: Seq<(Seq<char>, Seq<char>)>,
    pub body: Seq<u8>,
}

/// One materialised request: URL, method, ordered headers (duplicates
/// allowed, emission order preserved), and an immutable reference-counted
/// body buffer. Cloning a builder never copies the body bytes.
#[derive(Debug)]
pub struct RequestBuilder {
    pub url: String,
    pub method: Method,
    pub headers: Vec<(String, String)>,
    pub body: bytes::Bytes,
}

impl View for RequestBuilder {
    type V = TemplateModel;

    open spec fn view(&self) -> TemplateModel {
        TemplateModel {
            url: self.url@,
            method: self.method,
            headers: self.headers.deep_view(),
            body: bytes_view(self.body),
        }
    }
}

impl RequestBuilder {
    /// The length in bytes of the body this template sends.
    pub fn body_len(&self) -> (r: usize)
        ensures
            r == self@.body.len(),
    {
        bytes_len(&self.body)
    }
}

/// The resolved contents of the external body paths a specification names:
/// for each path, the bodies materialised from it (one for a regular file;
/// one per readable file directly inside a directory). The caller resolves
/// the paths on disk before corpus compilation; an entry's order of bodies
/// is the order the files were found in.
pub struct FileSet {
    pub entries: Vec<(String, Vec<bytes::Bytes>)>,
}

/// The byte contents of a list of body buffers.
pub open spec fn bodies_view(bs: Seq<bytes::Bytes>) -> Seq<Seq<u8>> {
    bs.map_values(|b: bytes::Bytes| bytes_view(b))
}

/// The bodies resolved for `path`: the first entry with that path wins.
pub open spec fn file_lookup(
    entries: Seq<(String, Vec<bytes::Bytes>)>,
    path: Seq<char>,
) -> Option<Seq<Seq<u8>>>
    decreases entries.len(),
{
    if entries.len() == 0 {
        None
    } else if entries[0].0@ == path {
        Some(bodies_view(entries[0].1@))
    } else {
        file_lookup(entries.skip(1), path)
    }
}

/// Why corpus construction was aborted. Each startup error the compiler
/// can detect is a distinct variant.
#[derive(Clone, Copy, PartialEq, Eq, Structural, Debug)]
pub enum CompileError {
    /// The endpoint, or a URL produced from it, did not parse.
    InvalidUrl,
    /// Joining a specification path onto the base URL failed.
    InvalidPath,
    /// A header parameter's name is not a valid HTTP header name.
    InvalidHeaderName,
    /// A header parameter's value is not a valid HTTP header value.
    InvalidHeaderValue,
    /// A path parameter was applied to a URL that cannot be a base.
    CannotBeBase,
    /// An external body path is missing from the resolved file contents.
    MissingBody,
    /// An operation or data weight is zero.
    InvalidWeight,
    /// A weight product, or the total corpus weight, exceeds what a u64
    /// can hold.
    WeightOverflow,
    /// The specification produced no templates at all.
    EmptyCorpus,
}

/// The sum of a weight list, as an unbounded integer.
pub open spec fn weight_sum(ws: Seq<u64>) -> int
    decreases ws.len(),
{
    if ws.len() == 0 {
        0
    } else {
        weight_sum(ws.drop_last()) + ws.last()
    }
}

/// The templates of a corpus zipped with their weights.
pub open spec fn store_pairs(reqs: Seq<RequestBuilder>, ws: Seq<u64>) -> Seq<
    (TemplateModel, u64),
> {
    Seq::new(reqs.len(), |i: int| (reqs[i]@, ws[i]))
}

/// The immutable weighted corpus of request templates that workers sample
/// from. The two vectors run in parallel: `weights[i]` is the sampling
/// weight of `requests[i]`.
#[derive(Debug)]
pub struct RequestStore {
    /// List of weights, exactly one per request.
    pub weights: Vec<u64>,
    /// List of the request templates to use.
    pub requests: Vec<RequestBuilder>,
}

impl RequestStore {
    /// The corpus's templates, as mathematical values.
    pub open spec fn templates(&self) -> Seq<TemplateModel> {
        self.requests@.map_values(|r: RequestBuilder| r@)
    }

    /// The corpus's weights.
    pub open spec fn spec_weights(&self) -> Seq<u64> {
        self.weights@
    }

    /// The corpus's templates zipped with their weights.
    pub open spec fn pairs(&self) -> Seq<(TemplateModel, u64)> {
        store_pairs(self.requests@, self.weights@)
    }

    /// Well-formedness: the parallel vectors agree in length, the corpus is
    /// not empty, every weight is positive, and the total weight fits a u64.
    pub open spec fn wf(&self) -> bool {
        &&& self.weights@.len() == self.requests@.len()
        &&& self.requests@.len() >= 1
        &&& (forall|i: int| 0 <= i < self.weights@.len() ==> self.weights@[i] >= 1)
        &&& weight_sum(self.weights@) <= u64::MAX
    }

    /// The number of templates in the corpus.
    pub fn len(&self) -> (r: usize)
        ensures
            r == self.templates().len(),
    {
        self.requests.len()
    }

    /// The template at position `i`, for inspection.
    pub fn template_at(&self, i: usize) -> (r: &RequestBuilder)
        requires
            i < self.templates().len(),
        ensures
            r@ == self.templates()[i as int],
    {
        &self.requests[i]
    }

    /// The weight at position `i`, for inspection.
    pub fn weight_at(&self, i: usize) -> (r: u64)
        requires
            i < self.spec_weights().len(),
        ensures
            r == self.spec_weights()[i as int],
    {
        self.weights[i]
    }

    /// The fallback corpus used when no specification is given: a single
    /// GET of the endpoint with weight 1. Fails exactly when the endpoint
    /// does not parse as a URL.
    pub fn fallback(endpoint: &str) -> (r: Result<RequestStore, CompileError>)
        ensures
            r is Ok <==> url_parsed(endpoint@) is Some,
            r matches Ok(store) ==> {
                &&& store.wf()
                &&& store.templates().len() == 1
                &&& store.templates()[0].url == url_parsed(endpoint@)->Some_0
                &&& store.templates()[0].method == Method::Get
                &&& store.templates()[0].headers.len() == 0
                &&& store.templates()[0].body.len() == 0
                &&& store.spec_weights() == seq![1u64]
            },
            r matches Err(e) ==> e == CompileError::InvalidUrl,
    {
        match parse_url(endpoint) {
            Some(u) => {
                let builder = RequestBuilder {
                    url: u,
                    method: Method::Get,
                    headers: Vec::new(),
                    body: bytes_new(),
                };
                let requests = vec![builder];
                let weights = vec![1u64];
                let store = RequestStore { weights, requests };
                proof {
                    assert(store.spec_weights() =~= seq![1u64]);
                    assert(store.spec_weights().drop_last() =~= Seq::<u64>::empty());
                    assert(weight_sum(Seq::<u64>::empty()) == 0);
                    assert(weight_sum(store.spec_weights()) == 1);
                    assert(store.templates().len() == 1);
                    assert(store.templates()[0] == store.requests@[0]@);
                    assert(store.templates()[0].headers.len() == 0);
                }
                Ok(store)
            },
            None => Err(CompileError::InvalidUrl),
        }
    }
}

} // verus!

verus! {

/// The URL and header list after one parameter is applied, or the error
/// that aborts compilation: an invalid header name or value, a path
/// segment on a URL that cannot be a base, or a query pair on a URL that
/// does not parse.
pub open spec fn spec_apply_param(
    url: Seq<char>,
    headers: Seq<(Seq<char>, Seq<char>)>,
    p: TestParameter,
) -> Result<(Seq<char>, Seq<(Seq<char>, Seq<char>)>), CompileError> {
    match p {
        TestParameter::Header { name, value } => {
            if !header_name_valid(name@) {
                Err(CompileError::InvalidHeaderName)
            } else if !header_value_valid(value@) {
                Err(CompileError::InvalidHeaderValue)
            } else {
                Ok((url, headers.push((name@, value@))))
            }
        },
        TestParameter::Path(s) => match url_with_segment(url, s@) {
            Some(u) => Ok((u, headers)),
            None => Err(CompileError::CannotBeBase),
        },
        TestParameter::Query { name, value } => match url_with_query(url, name@, value@) {
            Some(u) => Ok((u, headers)),
            None => Err(CompileError::InvalidUrl),
        },
    }
}

/// The URL and header list after a parameter list is applied in
/// declaration order, or the first error.
pub open spec fn spec_apply_params(
    url: Seq<char>,
    headers: Seq<(Seq<char>, Seq<char>)>,
    params: Seq<TestParameter>,
) -> Result<(Seq<char>, Seq<(Seq<char>, Seq<char>)>), CompileError>
    decreases params.len(),
{
    if params.len() == 0 {
        Ok((url, headers))
    } else {
        match spec_apply_params(url, headers, params.drop_last()) {
            Ok(uh) => spec_apply_param(uh.0, uh.1, params.last()),
            Err(e) => Err(e),
        }
    }
}

/// The bodies a data entry materialises: one empty body when it has none,
/// the UTF-8 bytes of a constant, or the resolved contents of an external
/// path (absence of the path aborts compilation).
pub open spec fn spec_data_bodies(
    body: Option<TestBody>,
    files: Seq<(String, Vec<bytes::Bytes>)>,
) -> Result<Seq<Seq<u8>>, CompileError> {
    match body {
        None => Ok(seq![Seq::<u8>::empty()]),
        Some(TestBody::Constant(s)) => Ok(seq![encode_utf8(s@)]),
        Some(TestBody::External(p)) => match file_lookup(files, p@) {
            Some(bodies) => Ok(bodies),
            None => Err(CompileError::MissingBody),
        },
    }
}

/// The weighted templates one data entry produces: its parameters applied
/// to the operation's URL, one template per materialised body, each with
/// weight `op_weight * d.weight`.
pub open spec fn spec_compile_data(
    url: Seq<char>,
    method: Method,
    op_weight: u64,
    d: Data,
    files: Seq<(String, Vec<bytes::Bytes>)>,
) -> Result<Seq<(TemplateModel, u64)>, CompileError> {
    if op_weight == 0 || d.weight == 0 {
        Err(CompileError::InvalidWeight)
    } else if op_weight * d.weight > u64::MAX {
        Err(CompileError::WeightOverflow)
    } else {
        match spec_apply_params(url, Seq::empty(), d.parameters@) {
            Err(e) => Err(e),
            Ok(uh) => match spec_data_bodies(d.body, files) {
                Err(e) => Err(e),
                Ok(bodies) => Ok(
                    Seq::new(
                        bodies.len(),
                        |i: int|
                            (
                                TemplateModel {
                                    url: uh.0,
                                    method: method,
                                    headers: uh.1,
                                    body: bodies[i],
                                },
                                (op_weight * d.weight) as u64,
                            ),
                    ),
                ),
            },
        }
    }
}

/// The weighted templates an operation's data entries produce, in
/// declaration order, or the first error.
pub open spec fn spec_compile_datas(
    url: Seq<char>,
    method: Method,
    op_weight: u64,
    rd: Seq<(String, Data)>,
    files: Seq<(String, Vec<bytes::Bytes>)>,
) -> Result<Seq<(TemplateModel, u64)>, CompileError>
    decreases rd.len(),
{
    if rd.len() == 0 {
        Ok(seq![])
    } else {
        match spec_compile_datas(url, method, op_weight, rd.drop_last(), files) {
            Err(e) => Err(e),
            Ok(ts) => match spec_compile_data(url, method, op_weight, rd.last().1, files) {
                Ok(more) => Ok(ts + more),
                Err(e) => Err(e),
            },
        }
    }
}

/// The weighted templates one operation produces.
pub open spec fn spec_compile_op(
    url: Seq<char>,
    method: Method,
    op: Operation,
    files: Seq<(String, Vec<bytes::Bytes>)>,
) -> Result<Seq<(TemplateModel, u64)>, CompileError> {
    spec_compile_datas(url, method, op.weight, op.request_data@, files)
}

/// The weighted templates one path item produces: the path joined onto the
/// base URL, then the GET operation's templates, then the POST operation's.
pub open spec fn spec_compile_item(
    base: Seq<char>,
    name: Seq<char>,
    item: PathItem,
    files: Seq<(String, Vec<bytes::Bytes>)>,
) -> Result<Seq<(TemplateModel, u64)>, CompileError> {
    match url_joined(base, name) {
        None => Err(CompileError::InvalidPath),
        Some(u) => {
            let gets: Result<Seq<(TemplateModel, u64)>, CompileError> = match item.get {
                Some(op) => spec_compile_op(u, Method::Get, op, files),
                None => Ok(seq![]),
            };
            match gets {
                Err(e) => Err(e),
                Ok(g) => {
                    let posts: Result<Seq<(TemplateModel, u64)>, CompileError> = match item.post {
                        Some(op) => spec_compile_op(u, Method::Post, op, files),
                        None => Ok(seq![]),
                    };
                    match posts {
                        Err(e) => Err(e),
                        Ok(p) => Ok(g + p),
                    }
                },
            }
        },
    }
}

/// The weighted templates a specification's path items produce, in order,
/// or the first error.
pub open spec fn spec_compile_paths(
    base: Seq<char>,
    paths: Seq<(String, PathItem)>,
    files: Seq<(String, Vec<bytes::Bytes>)>,
) -> Result<Seq<(TemplateModel, u64)>, CompileError>
    decreases paths.len(),
{
    if paths.len() == 0 {
        Ok(seq![])
    } else {
        match spec_compile_paths(base, paths.drop_last(), files) {
            Err(e) => Err(e),
            Ok(ts) => match spec_compile_item(base, paths.last().0@, paths.last().1, files) {
                Ok(more) => Ok(ts + more),
                Err(e) => Err(e),
            },
        }
    }
}

/// The total weight of a weighted template list, as an unbounded integer.
pub open spec fn pairs_weight_sum(ts: Seq<(TemplateModel, u64)>) -> int
    decreases ts.len(),
{
    if ts.len() == 0 {
        0
    } else {
        pairs_weight_sum(ts.drop_last()) + ts.last().1
    }
}

/// The whole corpus compilation: the endpoint must parse, the path items
/// are compiled in order, the corpus must not come out empty, and the
/// total weight must fit a u64.
pub open spec fn spec_compile(
    endpoint: Seq<char>,
    s: Specification,
    files: Seq<(String, Vec<bytes::Bytes>)>,
) -> Result<Seq<(TemplateModel, u64)>, CompileError> {
    match url_parsed(endpoint) {
        None => Err(CompileError::InvalidUrl),
        Some(base) => match spec_compile_paths(base, s.paths@, files) {
            Err(e) => Err(e),
            Ok(ts) => if ts.len() == 0 {
                Err(CompileError::EmptyCorpus)
            } else if pairs_weight_sum(ts) > u64::MAX {
                Err(CompileError::WeightOverflow)
            } else {
                Ok(ts)
            },
        },
    }
}

} // verus!

verus! {

/// Once a prefix of the parameter list fails, the whole list fails the
/// same way.
proof fn lemma_apply_params_prefix_err(
    url: Seq<char>,
    headers: Seq<(Seq<char>, Seq<char>)>,
    params: Seq<TestParameter>,
    i: int,
)
    requires
        0 <= i <= params.len(),
        spec_apply_params(url, headers, params.take(i)) is Err,
    ensures
        spec_apply_params(url, headers, params) == spec_apply_params(url, headers, params.take(i)),
    decreases params.len() - i,
{
    if i == params.len() {
        assert(params.take(i) =~= params);
    } else {
        assert(params.take(i + 1).drop_last() =~= params.take(i));
        lemma_apply_params_prefix_err(url, headers, params, i + 1);
    }
}

/// Once a prefix of the data entries fails, the whole list fails the same
/// way.
proof fn lemma_compile_datas_prefix_err(
    url: Seq<char>,
    method: Method,
    op_weight: u64,
    rd: Seq<(String, Data)>,
    files: Seq<(String, Vec<bytes::Bytes>)>,
    i: int,
)
    requires
        0 <= i <= rd.len(),
        spec_compile_datas(url, method, op_weight, rd.take(i), files) is Err,
    ensures
        spec_compile_datas(url, method, op_weight, rd, files) == spec_compile_datas(
            url,
            method,
            op_weight,
            rd.take(i),
            files,
        ),
    decreases rd.len() - i,
{
    if i == rd.len() {
        assert(rd.take(i) =~= rd);
    } else {
        assert(rd.take(i + 1).drop_last() =~= rd.take(i));
        lemma_compile_datas_prefix_err(url, method, op_weight, rd, files, i + 1);
    }
}

/// Once a prefix of the path items fails, the whole list fails the same
/// way.
proof fn lemma_compile_paths_prefix_err(
    base: Seq<char>,
    paths: Seq<(String, PathItem)>,
    files: Seq<(String, Vec<bytes::Bytes>)>,
    i: int,
)
    requires
        0 <= i <= paths.len(),
        spec_compile_paths(base, paths.take(i), files) is Err,
    ensures
        spec_compile_paths(base, paths, files) == spec_compile_paths(base, paths.take(i), files),
    decreases paths.len() - i,
{
    if i == paths.len() {
        assert(paths.take(i) =~= paths);
    } else {
        assert(paths.take(i + 1).drop_last() =~= paths.take(i));
        lemma_compile_paths_prefix_err(base, paths, files, i + 1);
    }
}

/// One parameter applied to the URL and header list under construction.
fn apply_param(url: String, headers: Vec<(String, String)>, p: &TestParameter) -> (r: Result<
    (String, Vec<(String, String)>),
    CompileError,
>)
    ensures
        match r {
            Ok(uh) => spec_apply_param(url@, headers.deep_view(), *p) == Ok::<
                (Seq<char>, Seq<(Seq<char>, Seq<char>)>),
                CompileError,
            >((uh.0@, uh.1.deep_view())),
            Err(e) => spec_apply_param(url@, headers.deep_view(), *p) == Err::<
                (Seq<char>, Seq<(Seq<char>, Seq<char>)>),
                CompileError,
            >(e),
        },
{
    match p {
        TestParameter::Header { name, value } => {
            if !valid_header_name(name.as_str()) {
                Err(CompileError::InvalidHeaderName)
            } else if !valid_header_value(value.as_str()) {
                Err(CompileError::InvalidHeaderValue)
            } else {
                let ghost h0 = headers.deep_view();
                let mut h = headers;
                h.push((name.clone(), value.clone()));
                proof {
                    assert(h.deep_view() =~= h0.push((name@, value@)));
                }
                Ok((url, h))
            }
        },
        TestParameter::Path(s) => match url_push_segment(url.as_str(), s.as_str()) {
            Some(u) => Ok((u, headers)),
            None => Err(CompileError::CannotBeBase),
        },
        TestParameter::Query { name, value } => match url_append_query(
            url.as_str(),
            name.as_str(),
            value.as_str(),
        ) {
            Some(u) => Ok((u, headers)),
            None => Err(CompileError::InvalidUrl),
        },
    }
}

/// A data entry's parameters applied in declaration order, starting from
/// the operation's URL and an empty header list.
fn apply_params(url: &String, params: &Vec<TestParameter>) -> (r: Result<
    (String, Vec<(String, String)>),
    CompileError,
>)
    ensures
        match r {
            Ok(uh) => spec_apply_params(url@, Seq::empty(), params@) == Ok::<
                (Seq<char>, Seq<(Seq<char>, Seq<char>)>),
                CompileError,
            >((uh.0@, uh.1.deep_view())),
            Err(e) => spec_apply_params(url@, Seq::empty(), params@) == Err::<
                (Seq<char>, Seq<(Seq<char>, Seq<char>)>),
                CompileError,
            >(e),
        },
{
    let mut u = url.clone();
    let mut h: Vec<(String, String)> = Vec::new();
    proof {
        assert(params@.take(0) =~= Seq::<TestParameter>::empty());
        assert(h.deep_view() =~= Seq::<(Seq<char>, Seq<char>)>::empty());
    }
    let n = params.len();
    let mut i: usize = 0;
    while i < n
        invariant
            i <= n,
            spec_apply_params(url@, Seq::empty(), params@.take(i as int)) == Ok::<
                (Seq<char>, Seq<(Seq<char>, Seq<char>)>),
                CompileError,
            >((u@, h.deep_view())),
        decreases n - i,
    {
        proof {
            assert(params@.take(i + 1).drop_last() =~= params@.take(i as int));
            assert(params@.take(i + 1).last() == params@[i as int]);
        }
        match apply_param(u, h, &params[i]) {
            Ok(uh) => {
                u = uh.0;
                h = uh.1;
            },
            Err(e) => {
                proof {
                    lemma_apply_params_prefix_err(url@, Seq::empty(), params@, i + 1);
                }
                return Err(e);
            },
        }
        i = i + 1;
    }
    proof {
        assert(params@.take(n as int) =~= params@);
    }
    Ok((u, h))
}

/// The resolved bodies for `path`, if the file set holds them.
fn lookup_files<'a>(files: &'a FileSet, path: &String) -> (r: Option<&'a Vec<bytes::Bytes>>)
    ensures
        match r {
            Some(v) => file_lookup(files.entries@, path@) == Some(bodies_view(v@)),
            None => file_lookup(files.entries@, path@) is None,
        },
{
    let ghost entries = files.entries@;
    proof {
        assert(entries.skip(0) =~= entries);
    }
    let n = files.entries.len();
    let mut i: usize = 0;
    while i < n
        invariant
            i <= n,
            file_lookup(entries, path@) == file_lookup(entries.skip(i as int), path@),
        decreases n - i,
    {
        proof {
            assert(entries.skip(i as int)[0] == entries[i as int]);
            assert(entries.skip(i as int).skip(1) =~= entries.skip(i + 1));
        }
        if files.entries[i].0 == *path {
            return Some(&files.entries[i].1);
        }
        i = i + 1;
    }
    proof {
        assert(entries.skip(n as int) =~= Seq::<(String, Vec<bytes::Bytes>)>::empty());
    }
    None
}

/// A copy of a body list; each buffer clone shares its bytes.
fn clone_bodies(bs: &Vec<bytes::Bytes>) -> (r: Vec<bytes::Bytes>)
    ensures
        bodies_view(r@) == bodies_view(bs@),
{
    let mut out: Vec<bytes::Bytes> = Vec::new();
    let n = bs.len();
    let mut i: usize = 0;
    while i < n
        invariant
            i <= n,
            out@.len() == i,
            forall|j: int| 0 <= j < i ==> bytes_view(out@[j]) == bytes_view(bs@[j]),
        decreases n - i,
    {
        out.push(bytes_clone(&bs[i]));
        i = i + 1;
    }
    proof {
        assert(bodies_view(out@) =~= bodies_view(bs@));
    }
    out
}

/// A copy of a header list.
fn clone_headers(h: &Vec<(String, String)>) -> (r: Vec<(String, String)>)
    ensures
        r.deep_view() == h.deep_view(),
{
    let mut out: Vec<(String, String)> = Vec::new();
    let n = h.len();
    let mut i: usize = 0;
    while i < n
        invariant
            i <= n,
            out@.len() == i,
            forall|j: int| 0 <= j < i ==> out@[j].0@ == h@[j].0@ && out@[j].1@ == h@[j].1@,
        decreases n - i,
    {
        out.push((h[i].0.clone(), h[i].1.clone()));
        i = i + 1;
    }
    proof {
        assert(out.deep_view() =~= h.deep_view());
    }
    out
}

/// The bodies a data entry materialises.
fn data_bodies(body: &Option<TestBody>, files: &FileSet) -> (r: Result<
    Vec<bytes::Bytes>,
    CompileError,
>)
    ensures
        match r {
            Ok(bs) => spec_data_bodies(*body, files.entries@) == Ok::<Seq<Seq<u8>>, CompileError>(
                bodies_view(bs@),
            ),
            Err(e) => spec_data_bodies(*body, files.entries@) == Err::<Seq<Seq<u8>>, CompileError>(
                e,
            ),
        },
{
    match body {
        None => {
            let v = vec![bytes_new()];
            proof {
                assert(bodies_view(v@) =~= seq![Seq::<u8>::empty()]);
            }
            Ok(v)
        },
        Some(TestBody::Constant(s)) => {
            let b = bytes_from_vec(s.as_str().as_bytes_vec());
            let v = vec![b];
            proof {
                assert(bodies_view(v@) =~= seq![encode_utf8(s@)]);
            }
            Ok(v)
        },
        Some(TestBody::External(p)) => match lookup_files(files, p) {
            Some(bs) => Ok(clone_bodies(bs)),
            None => Err(CompileError::MissingBody),
        },
    }
}

} // verus!

verus! {

/// Appends the weighted templates of one data entry to the corpus under
/// construction.
fn compile_data_into(
    url: &String,
    method: Method,
    op_weight: u64,
    d: &Data,
    files: &FileSet,
    reqs: &mut Vec<RequestBuilder>,
    ws: &mut Vec<u64>,
) -> (r: Result<(), CompileError>)
    requires
        old(reqs)@.len() == old(ws)@.len(),
    ensures
        final(reqs)@.len() == final(ws)@.len(),
        match r {
            Ok(()) => spec_compile_data(url@, method, op_weight, *d, files.entries@) matches Ok(ts)
                && store_pairs(final(reqs)@, final(ws)@) == store_pairs(old(reqs)@, old(ws)@) + ts,
            Err(e) => spec_compile_data(url@, method, op_weight, *d, files.entries@) == Err::<
                Seq<(TemplateModel, u64)>,
                CompileError,
            >(e) && final(reqs)@ == old(reqs)@ && final(ws)@ == old(ws)@,
        },
{
    if op_weight == 0 || d.weight == 0 {
        return Err(CompileError::InvalidWeight);
    }
    let w = match op_weight.checked_mul(d.weight) {
        Some(w) => w,
        None => return Err(CompileError::WeightOverflow),
    };
    let uh = match apply_params(url, &d.parameters) {
        Ok(uh) => uh,
        Err(e) => return Err(e),
    };
    let u = uh.0;
    let h = uh.1;
    let bodies = match data_bodies(&d.body, files) {
        Ok(b) => b,
        Err(e) => return Err(e),
    };
    let ghost ts = spec_compile_data(url@, method, op_weight, *d, files.entries@)->Ok_0;
    proof {
        assert(spec_compile_data(url@, method, op_weight, *d, files.entries@) is Ok);
        assert(ts =~= Seq::new(
            bodies@.len() as nat,
            |i: int|
                (
                    TemplateModel {
                        url: u@,
                        method: method,
                        headers: h.deep_view(),
                        body: bodies_view(bodies@)[i],
                    },
                    w,
                ),
        ));
        assert(ts.take(0) =~= Seq::<(TemplateModel, u64)>::empty());
        assert(store_pairs(reqs@, ws@) =~= store_pairs(old(reqs)@, old(ws)@) + ts.take(0));
    }
    let n = bodies.len();
    let mut i: usize = 0;
    while i < n
        invariant
            i <= n,
            reqs@.len() == ws@.len(),
            store_pairs(reqs@, ws@) == store_pairs(old(reqs)@, old(ws)@) + ts.take(i as int),
        decreases n - i,
    {
        let body = bytes_clone(&bodies[i]);
        let rb = RequestBuilder { url: u.clone(), method, headers: clone_headers(&h), body };
        let ghost rbm = rb@;
        let ghost pairs_prev = store_pairs(reqs@, ws@);
        proof {
            assert(rbm == ts[i as int].0);
            assert(ts[i as int].1 == w);
        }
        reqs.push(rb);
        ws.push(w);
        proof {
            let goal = store_pairs(old(reqs)@, old(ws)@) + ts.take(i + 1);
            assert forall|j: int| 0 <= j < reqs@.len() implies store_pairs(reqs@, ws@)[j] == goal[j] by {
                if j < reqs@.len() - 1 {
                    assert(store_pairs(reqs@, ws@)[j] == pairs_prev[j]);
                    assert(goal[j] == (store_pairs(old(reqs)@, old(ws)@) + ts.take(i as int))[j]);
                } else {
                    assert(store_pairs(reqs@, ws@)[j] == (rbm, w));
                    assert(goal[j] == ts[i as int]);
                }
            }
            assert(store_pairs(reqs@, ws@) =~= goal);
        }
        i = i + 1;
    }
    proof {
        assert(ts.take(n as int) =~= ts);
    }
    Ok(())
}

/// Appends the weighted templates of one operation to the corpus under
/// construction.
fn compile_op_into(
    url: &String,
    method: Method,
    op: &Operation,
    files: &FileSet,
    reqs: &mut Vec<RequestBuilder>,
    ws: &mut Vec<u64>,
) -> (r: Result<(), CompileError>)
    requires
        old(reqs)@.len() == old(ws)@.len(),
    ensures
        final(reqs)@.len() == final(ws)@.len(),
        match r {
            Ok(()) => spec_compile_op(url@, method, *op, files.entries@) matches Ok(ts)
                && store_pairs(final(reqs)@, final(ws)@) == store_pairs(old(reqs)@, old(ws)@) + ts,
            Err(e) => spec_compile_op(url@, method, *op, files.entries@) == Err::<
                Seq<(TemplateModel, u64)>,
                CompileError,
            >(e),
        },
{
    let ghost rd = op.request_data@;
    proof {
        assert(rd.take(0) =~= Seq::<(String, Data)>::empty());
        assert(store_pairs(reqs@, ws@) + Seq::<(TemplateModel, u64)>::empty() =~= store_pairs(
            reqs@,
            ws@,
        ));
    }
    let n = op.request_data.len();
    let mut i: usize = 0;
    while i < n
        invariant
            i <= n,
            reqs@.len() == ws@.len(),
            spec_compile_datas(url@, method, op.weight, rd.take(i as int), files.entries@)
                matches Ok(acc) && store_pairs(reqs@, ws@) == store_pairs(old(reqs)@, old(ws)@)
                + acc,
        decreases n - i,
    {
        let ghost acc = spec_compile_datas(
            url@,
            method,
            op.weight,
            rd.take(i as int),
            files.entries@,
        )->Ok_0;
        proof {
            assert(rd.take(i + 1).drop_last() =~= rd.take(i as int));
            assert(rd.take(i + 1).last() == rd[i as int]);
        }
        match compile_data_into(url, method, op.weight, &op.request_data[i].1, files, reqs, ws) {
            Ok(()) => {
                proof {
                    let more = spec_compile_data(
                        url@,
                        method,
                        op.weight,
                        rd[i as int].1,
                        files.entries@,
                    )->Ok_0;
                    assert((store_pairs(old(reqs)@, old(ws)@) + acc) + more =~= store_pairs(
                        old(reqs)@,
                        old(ws)@,
                    ) + (acc + more));
                }
            },
            Err(e) => {
                proof {
                    lemma_compile_datas_prefix_err(url@, method, op.weight, rd, files.entries@, i + 1);
                }
                return Err(e);
            },
        }
        i = i + 1;
    }
    proof {
        assert(rd.take(n as int) =~= rd);
    }
    Ok(())
}

} // verus!

verus! {

/// The total weight of zipped pairs is the sum of the weight vector.
proof fn lemma_store_pairs_weight(reqs: Seq<RequestBuilder>, ws: Seq<u64>)
    requires
        reqs.len() == ws.len(),
    ensures
        pairs_weight_sum(store_pairs(reqs, ws)) == weight_sum(ws),
    decreases ws.len(),
{
    if ws.len() == 0 {
        assert(store_pairs(reqs, ws) =~= Seq::<(TemplateModel, u64)>::empty());
    } else {
        lemma_store_pairs_weight(reqs.drop_last(), ws.drop_last());
        assert(store_pairs(reqs, ws).drop_last() =~= store_pairs(reqs.drop_last(), ws.drop_last()));
        assert(store_pairs(reqs, ws).last().1 == ws.last());
    }
}

/// A prefix of the weights never sums to more than the whole list: the
/// weights are unsigned.
pub(crate) proof fn lemma_weight_sum_take_bound(ws: Seq<u64>, j: int)
    requires
        0 <= j <= ws.len(),
    ensures
        weight_sum(ws.take(j)) <= weight_sum(ws),
    decreases ws.len() - j,
{
    if j == ws.len() {
        assert(ws.take(j) =~= ws);
    } else {
        lemma_weight_sum_take_bound(ws, j + 1);
        assert(ws.take(j + 1).drop_last() =~= ws.take(j));
        assert(ws.take(j + 1).last() == ws[j]);
    }
}

/// Every weight one data entry emits is positive.
proof fn lemma_compile_data_weights(
    url: Seq<char>,
    method: Method,
    op_weight: u64,
    d: Data,
    files: Seq<(String, Vec<bytes::Bytes>)>,
)
    ensures
        spec_compile_data(url, method, op_weight, d, files) matches Ok(ts) ==> forall|k: int|
            0 <= k < ts.len() ==> (#[trigger] ts[k]).1 >= 1,
{
    if spec_compile_data(url, method, op_weight, d, files) is Ok {
        assert(op_weight >= 1 && d.weight >= 1);
        assert(op_weight * d.weight >= 1) by (nonlinear_arith)
            requires
                op_weight >= 1,
                d.weight >= 1,
        ;
    }
}

/// Every weight an operation's data entries emit is positive.
proof fn lemma_compile_datas_weights(
    url: Seq<char>,
    method: Method,
    op_weight: u64,
    rd: Seq<(String, Data)>,
    files: Seq<(String, Vec<bytes::Bytes>)>,
)
    ensures
        spec_compile_datas(url, method, op_weight, rd, files) matches Ok(ts) ==> forall|k: int|
            0 <= k < ts.len() ==> (#[trigger] ts[k]).1 >= 1,
    decreases rd.len(),
{
    if rd.len() > 0 {
        lemma_compile_datas_weights(url, method, op_weight, rd.drop_last(), files);
        lemma_compile_data_weights(url, method, op_weight, rd.last().1, files);
    }
}

/// Every weight one path item emits is positive.
proof fn lemma_compile_item_weights(
    base: Seq<char>,
    name: Seq<char>,
    item: PathItem,
    files: Seq<(String, Vec<bytes::Bytes>)>,
)
    ensures
        spec_compile_item(base, name, item, files) matches Ok(ts) ==> forall|k: int|
            0 <= k < ts.len() ==> (#[trigger] ts[k]).1 >= 1,
{
    if url_joined(base, name) is Some {
        let u = url_joined(base, name)->Some_0;
        match item.get {
            Some(op) => lemma_compile_datas_weights(u, Method::Get, op.weight, op.request_data@, files),
            None => (),
        }
        match item.post {
            Some(op) => lemma_compile_datas_weights(u, Method::Post, op.weight, op.request_data@, files),
            None => (),
        }
    }
}

/// Every weight the path items emit is positive.
proof fn lemma_compile_paths_weights(
    base: Seq<char>,
    paths: Seq<(String, PathItem)>,
    files: Seq<(String, Vec<bytes::Bytes>)>,
)
    ensures
        spec_compile_paths(base, paths, files) matches Ok(ts) ==> forall|k: int|
            0 <= k < ts.len() ==> (#[trigger] ts[k]).1 >= 1,
    decreases paths.len(),
{
    if paths.len() > 0 {
        lemma_compile_paths_weights(base, paths.drop_last(), files);
        lemma_compile_item_weights(base, paths.last().0@, paths.last().1, files);
    }
}

/// Law: a compiled corpus pairs every template with exactly one weight,
/// every such weight is positive, and the corpus is not empty. This holds
/// for every specification and file set on which compilation succeeds.
pub proof fn lemma_compile_weights_positive(
    endpoint: Seq<char>,
    s: Specification,
    files: Seq<(String, Vec<bytes::Bytes>)>,
)
    ensures
        spec_compile(endpoint, s, files) matches Ok(ts) ==> {
            &&& ts.len() >= 1
            &&& forall|k: int| 0 <= k < ts.len() ==> (#[trigger] ts[k]).1 >= 1
        },
{
    if url_parsed(endpoint) is Some {
        lemma_compile_paths_weights(url_parsed(endpoint)->Some_0, s.paths@, files);
    }
}

impl RequestStore {
    /// Compiles a specification into the weighted corpus: for each path in
    /// order, the path is joined onto the endpoint; under it, the GET and
    /// then the POST operation contribute one template per data entry and
    /// materialised body, weighted by the product of the operation's and
    /// the entry's weights. The corpus must come out non-empty and its
    /// total weight must fit a u64; every startup error the document can
    /// cause is reported as the matching `CompileError`.
    pub fn create_from_spec(url: String, s: &Specification, files: &FileSet) -> (r: Result<
        RequestStore,
        CompileError,
    >)
        ensures
            match r {
                Ok(store) => spec_compile(url@, *s, files.entries@) matches Ok(ts) && store.pairs()
                    == ts && store.wf(),
                Err(e) => spec_compile(url@, *s, files.entries@) == Err::<
                    Seq<(TemplateModel, u64)>,
                    CompileError,
                >(e),
            },
    {
        let base = match parse_url(url.as_str()) {
            Some(b) => b,
            None => return Err(CompileError::InvalidUrl),
        };
        let ghost basev = base@;
        let ghost ps = s.paths@;
        let ghost filesv = files.entries@;
        let mut reqs: Vec<RequestBuilder> = Vec::new();
        let mut ws: Vec<u64> = Vec::new();
        proof {
            assert(ps.take(0) =~= Seq::<(String, PathItem)>::empty());
            assert(store_pairs(reqs@, ws@) =~= Seq::<(TemplateModel, u64)>::empty());
        }
        let n = s.paths.len();
        let mut i: usize = 0;
        while i < n
            invariant
                i <= n,
                reqs@.len() == ws@.len(),
                spec_compile_paths(basev, ps.take(i as int), filesv) matches Ok(acc)
                    && store_pairs(reqs@, ws@) == acc,
            decreases n - i,
        {
            let ghost acc = spec_compile_paths(basev, ps.take(i as int), filesv)->Ok_0;
            proof {
                assert(ps.take(i + 1).drop_last() =~= ps.take(i as int));
                assert(ps.take(i + 1).last() == ps[i as int]);
            }
            let name = &s.paths[i].0;
            let item = &s.paths[i].1;
            let joined = match join_url(base.as_str(), name.as_str()) {
                Some(u) => u,
                None => {
                    proof {
                        lemma_compile_paths_prefix_err(basev, ps, filesv, i + 1);
                    }
                    return Err(CompileError::InvalidPath);
                },
            };
            let ghost pairs_before = store_pairs(reqs@, ws@);
            match &item.get {
                Some(op) => {
                    match compile_op_into(&joined, Method::Get, op, files, &mut reqs, &mut ws) {
                        Ok(()) => (),
                        Err(e) => {
                            proof {
                                lemma_compile_paths_prefix_err(basev, ps, filesv, i + 1);
                            }
                            return Err(e);
                        },
                    }
                },
                None => (),
            }
            let ghost g = spec_compile_paths_item_get(joined@, ps[i as int].1, filesv);
            proof {
                assert(store_pairs(reqs@, ws@) =~= pairs_before + g);
            }
            match &item.post {
                Some(op) => {
                    match compile_op_into(&joined, Method::Post, op, files, &mut reqs, &mut ws) {
                        Ok(()) => (),
                        Err(e) => {
                            proof {
                                lemma_compile_paths_prefix_err(basev, ps, filesv, i + 1);
                            }
                            return Err(e);
                        },
                    }
                },
                None => (),
            }
            let ghost p = spec_compile_paths_item_post(joined@, ps[i as int].1, filesv);
            proof {
                assert(store_pairs(reqs@, ws@) =~= (pairs_before + g) + p);
                assert((pairs_before + g) + p =~= pairs_before + (g + p));
                assert(spec_compile_item(basev, ps[i as int].0@, ps[i as int].1, filesv) == Ok::<
                    Seq<(TemplateModel, u64)>,
                    CompileError,
                >(g + p));
                assert((acc + g) + p =~= acc + (g + p));
            }
            i = i + 1;
        }
        proof {
            assert(ps.take(n as int) =~= ps);
        }
        if reqs.len() == 0 {
            return Err(CompileError::EmptyCorpus);
        }
        let ghost ts = spec_compile_paths(basev, ps, filesv)->Ok_0;
        let mut total: u64 = 0;
        let m = ws.len();
        let mut j: usize = 0;
        proof {
            assert(ws@.take(0) =~= Seq::<u64>::empty());
        }
        while j < m
            invariant
                j <= m,
                total == weight_sum(ws@.take(j as int)),
            decreases m - j,
        {
            proof {
                assert(ws@.take(j + 1).drop_last() =~= ws@.take(j as int));
                assert(ws@.take(j + 1).last() == ws@[j as int]);
            }
            total = match total.checked_add(ws[j]) {
                Some(t) => t,
                None => {
                    proof {
                        lemma_weight_sum_take_bound(ws@, j + 1);
                        lemma_store_pairs_weight(reqs@, ws@);
                    }
                    return Err(CompileError::WeightOverflow);
                },
            };
            j = j + 1;
        }
        proof {
            assert(ws@.take(m as int) =~= ws@);
            lemma_store_pairs_weight(reqs@, ws@);
            lemma_compile_paths_weights(basev, ps, filesv);
            assert forall|k: int| 0 <= k < ws@.len() implies ws@[k] >= 1 by {
                assert(store_pairs(reqs@, ws@)[k].1 == ws@[k]);
                assert(ts[k].1 >= 1);
            }
        }
        Ok(RequestStore { weights: ws, requests: reqs })
    }
}

/// What the GET operation of a path item contributes once the URL is
/// joined: its templates, or nothing when the item has no GET.
pub open spec fn spec_compile_paths_item_get(
    joined: Seq<char>,
    item: PathItem,
    files: Seq<(String, Vec<bytes::Bytes>)>,
) -> Seq<(TemplateModel, u64)> {
    match item.get {
        Some(op) => spec_compile_op(joined, Method::Get, op, files)->Ok_0,
        None => seq![],
    }
}

/// What the POST operation of a path item contributes once the URL is
/// joined: its templates, or nothing when the item has no POST.
pub open spec fn spec_compile_paths_item_post(
    joined: Seq<char>,
    item: PathItem,
    files: Seq<(String, Vec<bytes::Bytes>)>,
) -> Seq<(TemplateModel, u64)> {
    match item.post {
        Some(op) => spec_compile_op(joined, Method::Post, op, files)->Ok_0,
        None => seq![],
    }
}

} // verus!

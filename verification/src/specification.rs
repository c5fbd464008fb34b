use vstd::prelude::*;

verus! {

/// A request-specification document, adapted from OpenAPI v3: an ordered
/// map from path string to the operations to exercise under that path.
/// Entry order is preserved, and the corpus compiler walks it in order.
pub struct Specification {
    pub paths: Vec<(String, PathItem)>,
}

/// The operations available under one path. Only GET and POST take part
/// in a load test.
pub struct PathItem {
    pub get: Option<Operation>,
    pub post: Option<Operation>,
}

/// One operation: an ordered map of named request data, and a sampling
/// weight (1 when the document does not state one).
pub struct Operation {
    pub request_data: Vec<(String, Data)>,
    pub weight: u64,
}

/// One datum that can be sent to an operation: parameters applied in
/// declaration order, an optional body, and a sampling weight
/// (1 when the document does not state one).
pub struct Data {
    pub parameters: Vec<TestParameter>,
    pub body: Option<TestBody>,
    pub weight: u64,
}

/// A request parameter: a header, a raw path segment appended to the URL,
/// or a query-string pair.
pub enum TestParameter {
    Header { name: String, value: String },
    Path(String),
    Query { name: String, value: String },
}

/// A request body: a constant string, or a path to a file (or directory of
/// files) whose contents become the body bytes.
pub enum TestBody {
    Constant(String),
    External(String),
}

/// Default weight for operations and data entries that do not state one.
pub fn one() -> (r: usize)
    ensures
        r == 1,
{
    1
}

/// The external body paths named by one data entry, in order.
pub open spec fn data_external_paths(d: Data) -> Seq<Seq<char>> {
    match d.body {
        Some(TestBody::External(p)) => seq![p@],
        _ => seq![],
    }
}

/// The external body paths named under a sequence of data entries, in order.
pub open spec fn datas_external_paths(rd: Seq<(String, Data)>) -> Seq<Seq<char>>
    decreases rd.len(),
{
    if rd.len() == 0 {
        seq![]
    } else {
        datas_external_paths(rd.drop_last()) + data_external_paths(rd.last().1)
    }
}

/// The external body paths named by one optional operation, in order.
pub open spec fn op_external_paths(op: Option<Operation>) -> Seq<Seq<char>> {
    match op {
        Some(o) => datas_external_paths(o.request_data@),
        None => seq![],
    }
}

/// The external body paths named under a sequence of path items, in order:
/// for each path, first the GET operation's, then the POST operation's.
pub open spec fn paths_external_paths(paths: Seq<(String, PathItem)>) -> Seq<Seq<char>>
    decreases paths.len(),
{
    if paths.len() == 0 {
        seq![]
    } else {
        paths_external_paths(paths.drop_last()) + op_external_paths(paths.last().1.get)
            + op_external_paths(paths.last().1.post)
    }
}

/// All external body paths a specification names, in the order the corpus
/// compiler will need them.
pub open spec fn spec_external_paths(s: Specification) -> Seq<Seq<char>> {
    paths_external_paths(s.paths@)
}

impl Data {
    /// The external body paths this data entry names (none, or one).
    fn external_paths_into(&self, out: &mut Vec<String>)
        ensures
            final(out).deep_view() == old(out).deep_view() + data_external_paths(*self),
    {
        match &self.body {
            Some(TestBody::External(p)) => {
                out.push(p.clone());
                assert(out.deep_view() =~= old(out).deep_view() + data_external_paths(*self));
            },
            _ => {
                assert(out.deep_view() =~= old(out).deep_view() + data_external_paths(*self));
            },
        }
    }
}

impl Operation {
    /// The external body paths this operation names, in order.
    fn external_paths_into(&self, out: &mut Vec<String>)
        ensures
            final(out).deep_view() == old(out).deep_view() + datas_external_paths(
                self.request_data@,
            ),
    {
        let ghost rd = self.request_data@;
        let n = self.request_data.len();
        let mut i: usize = 0;
        while i < n
            invariant
                i <= n,
                out.deep_view() == old(out).deep_view() + datas_external_paths(rd.take(i as int)),
            decreases n - i,
        {
            self.request_data[i].1.external_paths_into(out);
            proof {
                assert(rd.take(i + 1).drop_last() =~= rd.take(i as int));
                assert(rd.take(i + 1).last() == rd[i as int]);
            }
            i = i + 1;
        }
        proof {
            assert(rd.take(n as int) =~= rd);
        }
    }
}

impl Specification {
    /// All external body paths this specification names, in the order the
    /// corpus compiler will need them. The caller reads each path (a file,
    /// or a directory of files) and hands the contents to the compiler.
    pub fn external_paths(&self) -> (r: Vec<String>)
        ensures
            r.deep_view() == spec_external_paths(*self),
    {
        let ghost ps = self.paths@;
        let mut out: Vec<String> = Vec::new();
        let n = self.paths.len();
        let mut i: usize = 0;
        while i < n
            invariant
                i <= n,
                out.deep_view() == paths_external_paths(ps.take(i as int)),
            decreases n - i,
        {
            match &self.paths[i].1.get {
                Some(op) => op.external_paths_into(&mut out),
                None => (),
            }
            match &self.paths[i].1.post {
                Some(op) => op.external_paths_into(&mut out),
                None => (),
            }
            proof {
                assert(ps.take(i + 1).drop_last() =~= ps.take(i as int));
                assert(ps.take(i + 1).last() == ps[i as int]);
            }
            i = i + 1;
        }
        proof {
            assert(ps.take(n as int) =~= ps);
        }
        out
    }
}

} // verus!

//! Requests: the endpoint to call and the parameters to call it with.

use vstd::prelude::*;

verus! {

/// The value of a parameter.
#[derive(Debug, PartialEq, Eq)]
pub enum Arg {
    /// A word or a name.
    Text(String),
    /// A position or an identifier.
    Number(u64),
    /// A fraction, as the bits of a binary64 float.
    Float(u64),
}

pub enum ArgView {
    Text(Seq<char>),
    Number(u64),
    Float(u64),
}

impl View for Arg {
    type V = ArgView;

    open spec fn view(&self) -> ArgView {
        match self {
            Arg::Text(s) => ArgView::Text(s@),
            Arg::Number(n) => ArgView::Number(*n),
            Arg::Float(bits) => ArgView::Float(*bits),
        }
    }
}

/// One parameter: a key and its value.
#[derive(Debug, PartialEq, Eq)]
pub struct Param {
    pub key: &'static str,
    pub value: Arg,
}

impl View for Param {
    type V = (Seq<char>, ArgView);

    open spec fn view(&self) -> (Seq<char>, ArgView) {
        (self.key@, self.value@)
    }
}

/// The parameters of a request, in the order in which they were given. A key
/// may occur more than once: a list is sent as one parameter per element.
#[derive(Debug, PartialEq, Eq)]
pub struct Query {
    pub params: Vec<Param>,
}

impl View for Query {
    type V = Seq<(Seq<char>, ArgView)>;

    open spec fn view(&self) -> Seq<(Seq<char>, ArgView)> {
        self.params@.map_values(|p: Param| p@)
    }
}

/// The parameters that send each number of a list under one key.
pub open spec fn listed(key: Seq<char>, values: Seq<u64>) -> Seq<(Seq<char>, ArgView)> {
    values.map_values(|v: u64| (key, ArgView::Number(v)))
}

/// A list is sent whole and in order: there is one parameter for each of its
/// numbers, the parameter at a position carries the number at that position,
/// and every one of them stands under the list's key.
pub proof fn lemma_listed_keeps_order(key: Seq<char>, values: Seq<u64>)
    ensures
        listed(key, values).len() == values.len(),
        forall|i: int|
            0 <= i < values.len() ==> #[trigger] listed(key, values)[i] == (
                key,
                ArgView::Number(values[i]),
            ),
{
}

impl Query {
    /// A query without parameters.
    pub fn new() -> (q: Query)
        ensures
            q@ == Seq::<(Seq<char>, ArgView)>::empty(),
    {
        let q = Query { params: Vec::new() };
        q
    }

    /// A query with one parameter.
    pub fn with(key: &'static str, value: Arg) -> (q: Query)
        ensures
            q@ == seq![(key@, value@)],
    {
        Query::new().arg(key, Some(value))
    }

    /// Adds a parameter where there is a value for it.
    pub fn arg(self, key: &'static str, value: Option<Arg>) -> (q: Query)
        ensures
            q@ == match value {
                Some(v) => self@.push((key@, v@)),
                None => self@,
            },
    {
        match value {
            Some(v) => {
                let mut params = self.params;
                params.push(Param { key, value: v });
                let q = Query { params };
                q
            },
            None => self,
        }
    }

    /// Adds one parameter for each number of a list, all under one key and
    /// in the order of the list.
    pub fn arg_list(self, key: &'static str, values: &[u64]) -> (q: Query)
        ensures
            q@ == self@ + listed(key@, values@),
    {
        let mut params = self.params;
        let mut i: usize = 0;
        while i < values.len()
            invariant
                i <= values.len(),
                params@.map_values(|p: Param| p@) == self@ + listed(key@, values@.take(i as int)),
            decreases values.len() - i,
        {
            let ghost before = params@;
            params.push(Param { key, value: Arg::Number(values[i]) });
            assert(params@.map_values(|p: Param| p@) =~= before.map_values(|p: Param| p@).push(
                (key@, ArgView::Number(values@[i as int])),
            ));
            assert(listed(key@, values@.take(i + 1)) =~= listed(key@, values@.take(i as int)).push(
                (key@, ArgView::Number(values@[i as int])),
            ));
            i += 1;
        }
        Query { params }
    }

    /// The finished list of parameters.
    pub fn build(self) -> (params: Vec<Param>)
        ensures
            params@.map_values(|p: Param| p@) == self@,
    {
        self.params
    }
}

/// A call of a remote endpoint.
#[derive(Debug, PartialEq, Eq)]
pub struct Request {
    pub endpoint: &'static str,
    pub params: Vec<Param>,
}

pub struct RequestView {
    pub endpoint: Seq<char>,
    pub params: Seq<(Seq<char>, ArgView)>,
}

impl View for Request {
    type V = RequestView;

    open spec fn view(&self) -> RequestView {
        RequestView { endpoint: self.endpoint@, params: self.params@.map_values(|p: Param| p@) }
    }
}

impl Request {
    /// A call of `endpoint` with the parameters of `query`.
    pub fn get(endpoint: &'static str, query: Query) -> (r: Request)
        ensures
            r@ == (RequestView { endpoint: endpoint@, params: query@ }),
    {
        Request { endpoint, params: query.build() }
    }
}

} // verus!

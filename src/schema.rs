use vstd::prelude::*;

use crate::error::SchemaError;

verus! {

/// One HTTP operation to describe: where it lives, how it is called, and
/// the sample bodies.
#[derive(Debug)]
pub struct Schema {
    pub root: String,
    pub path: String,
    pub method: String,
    pub body: Option<String>,
    pub header: Vec<String>,
    pub query: Option<Vec<String>>,
    pub param: Option<Vec<String>>,
    pub res: String,
}

/// What the caller supplies to build a `Schema`; `res` may be left out, to
/// be fetched from the live endpoint.
#[derive(Debug)]
pub struct SchemaParams {
    pub root: String,
    pub path: String,
    pub method: String,
    pub body: Option<String>,
    pub header: Vec<String>,
    pub query: Option<Vec<String>>,
    pub param: Option<Vec<String>>,
    pub res: Option<String>,
}

/// The HTTP methods a response can be fetched with.
#[derive(Debug, Clone, Copy, PartialEq, Eq, Structural)]
pub enum Method {
    Get,
    Post,
    Put,
    Delete,
    Patch,
}

/// `k` is the index of the first `c` in `s`.
pub open spec fn is_first(s: Seq<char>, c: char, k: int) -> bool {
    &&& 0 <= k < s.len()
    &&& s[k] == c
    &&& forall|j: int| 0 <= j < k ==> s[j] != c
}

/// `s` cut around its first `c`: the text before it and the text after it.
pub open spec fn split_first(s: Seq<char>, c: char) -> Option<(Seq<char>, Seq<char>)> {
    if exists|k: int| is_first(s, c, k) {
        let k = choose|k: int| is_first(s, c, k);
        Some((s.subrange(0, k), s.subrange(k + 1, s.len() as int)))
    } else {
        None
    }
}

/// The text before the first `=` of a `key=value` pair (all of it when
/// there is no `=`).
pub open spec fn key_of(s: Seq<char>) -> Seq<char> {
    match split_first(s, '=') {
        Some(p) => p.0,
        None => s,
    }
}

/// The text after the first `=` of a `key=value` pair (empty when there is
/// no `=`).
pub open spec fn value_of(s: Seq<char>) -> Seq<char> {
    match split_first(s, '=') {
        Some(p) => p.1,
        None => Seq::empty(),
    }
}

pub open spec fn keys_of(pairs: Seq<String>) -> Seq<Seq<char>> {
    Seq::new(pairs.len(), |i: int| key_of(pairs[i]@))
}

pub open spec fn str_views(v: Seq<&str>) -> Seq<Seq<char>> {
    Seq::new(v.len(), |i: int| v[i]@)
}

/// The keys of optional `key=value` pairs, in order.
pub open spec fn opt_keys(pairs: Option<Vec<String>>) -> Seq<Seq<char>> {
    match pairs {
        Some(p) => keys_of(p@),
        None => Seq::empty(),
    }
}

/// What `str::trim` leaves of a text.
pub uninterp spec fn trimmed(s: Seq<char>) -> Seq<char>;

/// What `str::replace` makes of `s` with every `from` turned into `to`.
pub uninterp spec fn replaced(s: Seq<char>, from: Seq<char>, to: Seq<char>) -> Seq<char>;

/// A raw header `name: value` as a trimmed name and a trimmed value (the
/// value is empty where there is no `:`).
pub open spec fn header_parts(h: Seq<char>) -> (Seq<char>, Seq<char>) {
    match split_first(h, ':') {
        Some(p) => (trimmed(p.0), trimmed(p.1)),
        None => (trimmed(h), Seq::empty()),
    }
}

pub open spec fn header_keys(hs: Seq<String>) -> Seq<Seq<char>> {
    Seq::new(hs.len(), |i: int| header_parts(hs[i]@).0)
}

/// The path with each `{key}` placeholder of the pairs, in order, replaced
/// by its value.
pub open spec fn filled_path(path: Seq<char>, pairs: Seq<String>) -> Seq<char>
    decreases pairs.len(),
{
    if pairs.len() == 0 {
        path
    } else {
        let p = pairs.last()@;
        replaced(filled_path(path, pairs.drop_last()), "{"@ + key_of(p) + "}"@, value_of(p))
    }
}

/// The texts joined with `&` between them.
pub open spec fn joined(q: Seq<String>) -> Seq<char>
    decreases q.len(),
{
    if q.len() == 0 {
        Seq::empty()
    } else if q.len() == 1 {
        q[0]@
    } else {
        joined(q.drop_last()) + "&"@ + q.last()@
    }
}

pub open spec fn method_of(m: Seq<char>) -> Option<Method> {
    if m == "GET"@ {
        Some(Method::Get)
    } else if m == "POST"@ {
        Some(Method::Post)
    } else if m == "PUT"@ {
        Some(Method::Put)
    } else if m == "DELETE"@ {
        Some(Method::Delete)
    } else if m == "PATCH"@ {
        Some(Method::Patch)
    } else {
        None
    }
}

/// Relies on str::trim: the text without leading and trailing whitespace.
#[verifier::external_body]
fn trim(s: &str) -> (r: &str)
    ensures
        r@ == trimmed(s@),
{
    s.trim()
}

/// Relies on str::replace: `s` with every match of `from` replaced by `to`.
#[verifier::external_body]
fn replace(s: &str, from: &str, to: &str) -> (r: String)
    ensures
        r@ == replaced(s@, from@, to@),
{
    s.replace(from, to)
}

/// Cuts `s` around its first `c`.
pub fn split_once(s: &str, c: char) -> (r: Option<(&str, &str)>)
    ensures
        match r {
            Some((a, b)) => split_first(s@, c) == Some((a@, b@)),
            None => split_first(s@, c) is None,
        },
{
    let n = s.unicode_len();
    let mut i: usize = 0;
    while i < n
        invariant
            n == s@.len(),
            i <= n,
            forall|j: int| 0 <= j < i ==> s@[j] != c,
        decreases n - i,
    {
        if s.get_char(i) == c {
            assert(is_first(s@, c, i as int));
            let ghost k = choose|k: int| is_first(s@, c, k);
            assert(k == i) by {
                if k < i {
                    assert(s@[k] != c);
                } else if k > i {
                    assert(s@[i as int] != c);
                }
            }
            return Some((s.substring_char(0, i), s.substring_char(i + 1, n)));
        }
        i = i + 1;
    }
    assert(!exists|k: int| is_first(s@, c, k));
    None
}

/// Whether two texts are equal, character by character.
fn same_text(a: &str, b: &str) -> (r: bool)
    ensures
        r == (a@ == b@),
{
    let n = a.unicode_len();
    if n != b.unicode_len() {
        return false;
    }
    let mut i: usize = 0;
    while i < n
        invariant
            n == a@.len(),
            n == b@.len(),
            i <= n,
            forall|j: int| 0 <= j < i ==> a@[j] == b@[j],
        decreases n - i,
    {
        if a.get_char(i) != b.get_char(i) {
            return false;
        }
        i = i + 1;
    }
    assert(a@ =~= b@);
    true
}

/// The keys of `key=value` pairs, in order.
fn pair_keys(pairs: &Vec<String>) -> (r: Vec<&str>)
    ensures
        str_views(r@) == keys_of(pairs@),
{
    let mut r: Vec<&str> = Vec::new();
    let mut i: usize = 0;
    while i < pairs.len()
        invariant
            i <= pairs.len(),
            r@.len() == i,
            forall|j: int| 0 <= j < i ==> r@[j]@ == key_of(pairs@[j]@),
        decreases pairs.len() - i,
    {
        let k = match split_once(pairs[i].as_str(), '=') {
            Some((k, _)) => k,
            None => pairs[i].as_str(),
        };
        r.push(k);
        i = i + 1;
    }
    assert(str_views(r@) =~= keys_of(pairs@));
    r
}

/// A raw header cut into its trimmed name and trimmed value.
pub fn split_header(h: &str) -> (r: (&str, &str))
    ensures
        (r.0@, r.1@) == header_parts(h@),
{
    match split_once(h, ':') {
        Some((k, v)) => (trim(k), trim(v)),
        None => {
            let e = "";
            proof {
                reveal_strlit("");
            }
            assert(e@ =~= Seq::<char>::empty());
            (trim(h), e)
        },
    }
}

/// Builds the operation from the caller's parameters, with an empty
/// response body where none was supplied.
pub fn create_schema(params: SchemaParams) -> (r: Schema)
    ensures
        r.root == params.root,
        r.path == params.path,
        r.method == params.method,
        r.body == params.body,
        r.header == params.header,
        r.query == params.query,
        r.param == params.param,
        r.res@ == match params.res {
            Some(s) => s@,
            None => Seq::empty(),
        },
{
    let res = match params.res {
        Some(s) => s,
        None => String::new(),
    };
    Schema {
        root: params.root,
        path: params.path,
        method: params.method,
        body: params.body,
        header: params.header,
        query: params.query,
        param: params.param,
        res,
    }
}

impl Schema {
    /// The URL to fetch: root, path with its placeholders filled, and the
    /// query pairs after a `?` where there are any.
    pub fn get_url(&self) -> (r: String)
        ensures
            r@ == self.root@ + match self.param {
                Some(p) => filled_path(self.path@, p@),
                None => self.path@,
            } + match self.query {
                Some(q) => "?"@ + joined(q@),
                None => Seq::empty(),
            },
    {
        let mut path = self.path.clone();
        match &self.param {
            Some(p) => {
                let mut i: usize = 0;
                while i < p.len()
                    invariant
                        i <= p.len(),
                        path@ == filled_path(self.path@, p@.subrange(0, i as int)),
                    decreases p.len() - i,
                {
                    let (k, v) = match split_once(p[i].as_str(), '=') {
                        Some((k, v)) => (k, v),
                        None => {
                            let e = "";
                            proof {
                                reveal_strlit("");
                            }
                            assert(e@ =~= Seq::<char>::empty());
                            (p[i].as_str(), e)
                        },
                    };
                    let pat = String::from_str("{").concat(k).concat("}");
                    path = replace(path.as_str(), pat.as_str(), v);
                    assert(p@.subrange(0, i + 1).drop_last() =~= p@.subrange(0, i as int));
                    i = i + 1;
                }
                assert(p@.subrange(0, p.len() as int) =~= p@);
            },
            None => {},
        }
        let mut url = self.root.clone().concat(path.as_str());
        match &self.query {
            Some(q) => {
                url.append("?");
                let ghost head = url@;
                let mut i: usize = 0;
                while i < q.len()
                    invariant
                        i <= q.len(),
                        url@ == head + joined(q@.subrange(0, i as int)),
                    decreases q.len() - i,
                {
                    if i > 0 {
                        url.append("&");
                    }
                    url.append(q[i].as_str());
                    assert(q@.subrange(0, i + 1).drop_last() =~= q@.subrange(0, i as int));
                    assert(url@ =~= head + joined(q@.subrange(0, i + 1)));
                    i = i + 1;
                }
                assert(q@.subrange(0, q.len() as int) =~= q@);
            },
            None => {},
        }
        url
    }

    /// The names of the headers, trimmed, in the order they were given.
    pub fn get_header_keys(&self) -> (r: Vec<&str>)
        ensures
            str_views(r@) == header_keys(self.header@),
    {
        let mut r: Vec<&str> = Vec::new();
        let mut i: usize = 0;
        while i < self.header.len()
            invariant
                i <= self.header.len(),
                r@.len() == i,
                forall|j: int| 0 <= j < i ==> r@[j]@ == header_parts(self.header@[j]@).0,
            decreases self.header.len() - i,
        {
            let (k, _) = split_header(self.header[i].as_str());
            r.push(k);
            i = i + 1;
        }
        assert(str_views(r@) =~= header_keys(self.header@));
        r
    }

    /// The keys of the query pairs, in order.
    pub fn get_query_keys(&self) -> (r: Vec<&str>)
        ensures
            str_views(r@) == opt_keys(self.query),
    {
        match &self.query {
            Some(q) => pair_keys(q),
            None => {
                let r: Vec<&str> = Vec::new();
                assert(str_views(r@) =~= opt_keys(self.query));
                r
            },
        }
    }

    /// The keys of the path parameter pairs, in order.
    pub fn get_param_keys(&self) -> (r: Vec<&str>)
        ensures
            str_views(r@) == opt_keys(self.param),
    {
        match &self.param {
            Some(p) => pair_keys(p),
            None => {
                let r: Vec<&str> = Vec::new();
                assert(str_views(r@) =~= opt_keys(self.param));
                r
            },
        }
    }

    /// The method to fetch the response with; any method but the five
    /// supported ones is refused.
    pub fn request_method(&self) -> (r: Result<Method, SchemaError>)
        ensures
            match method_of(self.method@) {
                Some(m) => r == Ok::<Method, SchemaError>(m),
                None => r is Err && r->Err_0 == SchemaError::UnsupportedMethod,
            },
    {
        let m = self.method.as_str();
        if same_text(m, "GET") {
            Ok(Method::Get)
        } else if same_text(m, "POST") {
            Ok(Method::Post)
        } else if same_text(m, "PUT") {
            Ok(Method::Put)
        } else if same_text(m, "DELETE") {
            Ok(Method::Delete)
        } else if same_text(m, "PATCH") {
            Ok(Method::Patch)
        } else {
            Err(SchemaError::UnsupportedMethod)
        }
    }
}

} // verus!

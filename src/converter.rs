use vstd::prelude::*;

use crate::error::SchemaError;
use crate::json::{members_depth, parse_json, parsed_json, walk_depth, JsonValue};
use crate::schema::{header_keys, opt_keys, str_views, Schema};

verus! {

broadcast use vstd::std_specs::vec::group_vec_axioms;

/// The deepest indentation level the converter will write at.
pub const LEVEL_LIMIT: usize = 0x10_0000;

/// How each written line starts: the comment prefix (empty, or the comment
/// and one space) and the number of spaces per indentation level.
pub struct Layout {
    pub prefix: Seq<char>,
    pub gap: nat,
}

pub open spec fn spaces(n: nat) -> Seq<char> {
    Seq::new(n, |i: int| ' ')
}

/// One line of schema text at indentation level `lvl`.
#[verifier::opaque]
pub open spec fn line(lay: Layout, lvl: nat, content: Seq<char>) -> Seq<char> {
    lay.prefix + spaces(lvl * lay.gap) + content + "\n"@
}

/// The lines for a string value: its type, and the date format one level
/// deeper when the text looks like a date.
pub open spec fn string_text(lay: Layout, lvl: nat, date: bool) -> Seq<char> {
    if date {
        line(lay, lvl, "type: string"@) + line(lay, lvl + 1, "format: date"@)
    } else {
        line(lay, lvl, "type: string"@)
    }
}

/// Whether the date pattern matches the text.
pub uninterp spec fn date_match(s: Seq<char>) -> bool;

/// The schema text of a value, its first line at level `lvl`.
pub open spec fn value_text(lay: Layout, v: JsonValue, lvl: nat) -> Seq<char>
    decreases v, 1int, 0int,
{
    match v {
        JsonValue::Null => line(lay, lvl, "type: undefined"@),
        JsonValue::Bool(_) => line(lay, lvl, "type: boolean"@),
        JsonValue::Number => line(lay, lvl, "type: number"@),
        JsonValue::Str(s) => string_text(lay, lvl, date_match(s@)),
        JsonValue::Array(a) => line(lay, lvl, "type: array"@) + line(lay, lvl, "items:"@) + if a.len()
            > 0 {
            value_text(lay, a[0], lvl + 1)
        } else {
            line(lay, lvl + 1, "type: undefined"@)
        },
        JsonValue::Object(m) => line(lay, lvl, "type: object"@) + line(lay, lvl, "properties:"@)
            + members_text(lay, v, 0, lvl + 1),
    }
}

/// The text of one object member: its key, then its value one level deeper.
pub open spec fn property_text(lay: Layout, key: Seq<char>, v: JsonValue, lvl: nat) -> Seq<char>
    decreases v, 2int, 0int,
{
    line(lay, lvl, key + ":"@) + value_text(lay, v, lvl + 1)
}

/// The text of the members of the object `obj` from index `i` on, in order.
pub open spec fn members_text(lay: Layout, obj: JsonValue, i: int, lvl: nat) -> Seq<char>
    decreases obj, 0int, if obj is Object && 0 <= i <= obj->Object_0.len() {
        obj->Object_0.len() - i
    } else {
        0
    },
{
    match obj {
        JsonValue::Object(m) => if 0 <= i < m.len() {
            property_text(lay, m[i].0@, m[i].1, lvl) + members_text(lay, obj, i + 1, lvl)
        } else {
            Seq::empty()
        },
        _ => Seq::empty(),
    }
}

/// The value a document's schema describes: the first element of a
/// top-level array (null for an empty one), else the document itself.
pub open spec fn described(v: JsonValue) -> JsonValue {
    match v {
        JsonValue::Array(a) => if a.len() > 0 {
            a[0]
        } else {
            JsonValue::Null
        },
        _ => v,
    }
}

/// The schema text of a whole document.
pub open spec fn document_text(lay: Layout, v: JsonValue, lvl: nat) -> Seq<char> {
    value_text(lay, described(v), lvl)
}

/// Each member of an object is no deeper than the deepest member from its
/// index on, and dropping a member never deepens the rest.
proof fn lemma_members_depth_bound(obj: JsonValue, i: int)
    requires
        obj is Object,
        0 <= i < obj->Object_0.len(),
    ensures
        walk_depth(obj->Object_0[i].1) <= members_depth(obj, i),
        members_depth(obj, i + 1) <= members_depth(obj, i),
{
}

/// The value a document's schema describes is no deeper than the document.
proof fn lemma_described_depth(v: JsonValue)
    ensures
        walk_depth(described(v)) <= walk_depth(v),
{
}

/// The request body block, its first line at level `lvl`.
pub open spec fn request_text(lay: Layout, v: JsonValue, lvl: nat) -> Seq<char> {
    line(lay, lvl, "requestBody:"@) + line(lay, lvl + 1, "content:"@) + line(
        lay,
        lvl + 2,
        "application/json:"@,
    ) + line(lay, lvl + 3, "schema:"@) + document_text(lay, v, lvl + 4)
}

/// The response block, its first line at level `lvl`.
pub open spec fn response_text(lay: Layout, v: JsonValue, lvl: nat) -> Seq<char> {
    line(lay, lvl, "responses:"@) + line(lay, lvl + 1, "200:"@) + line(lay, lvl + 2, "content:"@)
        + line(lay, lvl + 3, "application/json:"@) + line(lay, lvl + 4, "schema:"@) + document_text(
        lay,
        v,
        lvl + 5,
    )
}

/// What `str::to_lowercase` makes of a text.
pub uninterp spec fn lower_of(s: Seq<char>) -> Seq<char>;

/// The whole description of an operation whose bodies parsed to `body` and
/// `res`, its first line at level `lvl`.
pub open spec fn operation_text(
    lay: Layout,
    lvl: nat,
    s: Schema,
    body: Option<JsonValue>,
    res: JsonValue,
) -> Seq<char> {
    heading_text(lay, lvl, s) + parameters_text(lay, lvl + 3, s) + match body {
        Some(b) => request_text(lay, b, lvl + 2),
        None => Seq::empty(),
    } + response_text(lay, res, lvl + 2)
}

/// The lines before the parameters: path, method, description and tags.
pub open spec fn heading_text(lay: Layout, lvl: nat, s: Schema) -> Seq<char> {
    line(lay, lvl, s.path@ + ":"@) + line(lay, lvl + 1, lower_of(s.method@) + ":"@) + line(
        lay,
        lvl + 2,
        "description: unknown"@,
    ) + line(lay, lvl + 2, "tags:"@) + line(lay, lvl + 3, "- unknown"@) + line(
        lay,
        lvl + 2,
        "parameters:"@,
    )
}

/// The path, query and header parameter blocks, at level `lvl`.
pub open spec fn parameters_text(lay: Layout, lvl: nat, s: Schema) -> Seq<char> {
    params_text(lay, lvl, opt_keys(s.param), ParamKind::Param) + params_text(
        lay,
        lvl,
        opt_keys(s.query),
        ParamKind::Query,
    ) + params_text(lay, lvl, header_keys(s.header@), ParamKind::Header)
}

/// The bodies of `s` fail to parse: the request body where there is one, or
/// the response body.
pub open spec fn malformed(s: Schema) -> bool {
    (s.body is Some && parsed_json(s.body->Some_0@) is None) || parsed_json(s.res@) is None
}

/// The deepest level from which a whole operation can be written.
pub const MAX_START_LEVEL: usize = LEVEL_LIMIT - 300;

/// Writes indented schema lines into a growing text.
pub struct Converter {
    gap: u8,
    offset: usize,
    comment: String,
    swag_schema: String,
}

/// The kind of an operation parameter.
#[derive(Clone, Copy)]
pub enum ParamKind {
    Param,
    Query,
    Header,
}

pub open spec fn location(kind: ParamKind) -> Seq<char> {
    match kind {
        ParamKind::Param => "in: path"@,
        ParamKind::Query => "in: query"@,
        ParamKind::Header => "in: header"@,
    }
}

/// The block of one parameter named `key`.
pub open spec fn param_text(lay: Layout, lvl: nat, key: Seq<char>, kind: ParamKind) -> Seq<char> {
    line(lay, lvl, "- name: "@ + key) + line(lay, lvl + 1, location(kind)) + line(
        lay,
        lvl + 1,
        "required: true"@,
    ) + line(lay, lvl + 1, "schema:"@) + line(lay, lvl + 2, "type: string"@)
}

/// The blocks of the parameters named in `keys`, in order.
pub open spec fn params_text(lay: Layout, lvl: nat, keys: Seq<Seq<char>>, kind: ParamKind) -> Seq<
    char,
>
    decreases keys.len(),
{
    if keys.len() == 0 {
        Seq::empty()
    } else {
        params_text(lay, lvl, keys.drop_last(), kind) + param_text(lay, lvl, keys.last(), kind)
    }
}

impl Converter {
    pub closed spec fn layout(&self) -> Layout {
        Layout { prefix: self.comment@, gap: self.gap as nat }
    }

    /// The indentation level the next line is written at.
    pub closed spec fn level(&self) -> nat {
        self.offset as nat
    }

    /// The text written so far.
    pub closed spec fn text(&self) -> Seq<char> {
        self.swag_schema@
    }

    pub fn new(gap: u8, offset: u8, comment: &str) -> (r: Self)
        ensures
            r.layout() == (Layout {
                prefix: if comment@.len() == 0 {
                    Seq::empty()
                } else {
                    comment@ + " "@
                },
                gap: gap as nat,
            }),
            r.level() == offset,
            r.text() == Seq::<char>::empty(),
    {
        let c = if comment.is_empty() {
            String::new()
        } else {
            String::from_str(comment).concat(" ")
        };
        Converter { gap, offset: offset as usize, comment: c, swag_schema: String::new() }
    }

    fn offsetter(&self) -> (r: String)
        requires
            self.offset <= LEVEL_LIMIT,
        ensures
            r@ == spaces(self.level() * self.layout().gap),
    {
        assert(self.offset * (self.gap as usize) <= LEVEL_LIMIT * 255) by (nonlinear_arith)
            requires
                self.offset <= LEVEL_LIMIT,
                self.gap <= 255,
        ;
        let n: usize = self.offset * (self.gap as usize);
        let mut s = String::new();
        let mut i: usize = 0;
        while i < n
            invariant
                i <= n,
                s@ == spaces(i as nat),
            decreases n - i,
        {
            s.append(" ");
            proof {
                reveal_strlit(" ");
            }
            assert(s@ =~= spaces((i + 1) as nat));
            i = i + 1;
        }
        assert(s@ =~= spaces(self.level() * self.layout().gap));
        s
    }

    fn add_offset(&mut self, num: i8)
        requires
            0 <= old(self).level() + num <= LEVEL_LIMIT,
        ensures
            final(self).level() == old(self).level() + num,
            final(self).layout() == old(self).layout(),
            final(self).text() == old(self).text(),
    {
        if num >= 0 {
            self.offset = self.offset + num as usize;
        } else {
            self.offset = self.offset - ((0 - (num as i16)) as usize);
        }
    }

    fn write_line(&mut self, content: &str)
        requires
            old(self).level() <= LEVEL_LIMIT,
        ensures
            final(self).text() == old(self).text() + line(
                old(self).layout(),
                old(self).level(),
                content@,
            ),
            final(self).level() == old(self).level(),
            final(self).layout() == old(self).layout(),
    {
        let mut l = self.comment.clone();
        let pad = self.offsetter();
        l.append(pad.as_str());
        l.append(content);
        l.append("\n");
        self.swag_schema.append(l.as_str());
        reveal(line);
        assert(self.swag_schema@ =~= old(self).text() + line(
            old(self).layout(),
            old(self).level(),
            content@,
        ));
    }

    /// Writes the lines of a string value at the current level; `date` says
    /// whether its text matched the date pattern.
    pub fn write_string_type(&mut self, date: bool)
        requires
            old(self).level() + 1 <= LEVEL_LIMIT,
        ensures
            final(self).text() == old(self).text() + string_text(
                old(self).layout(),
                old(self).level(),
                date,
            ),
            final(self).level() == old(self).level(),
            final(self).layout() == old(self).layout(),
    {
        self.write_line("type: string");
        if date {
            self.add_offset(1);
            self.write_line("format: date");
            self.add_offset(-1);
        }
        assert(self.text() =~= old(self).text() + string_text(
            old(self).layout(),
            old(self).level(),
            date,
        ));
    }

    /// Writes the schema of `v`, its first line at the current level, and
    /// leaves the level as it found it.
    pub fn write_schema(&mut self, v: &JsonValue)
        requires
            old(self).level() + 2 * walk_depth(*v) + 1 <= LEVEL_LIMIT,
        ensures
            final(self).text() == old(self).text() + value_text(
                old(self).layout(),
                *v,
                old(self).level(),
            ),
            final(self).level() == old(self).level(),
            final(self).layout() == old(self).layout(),
        decreases *v, 1int, 0int,
    {
        let ghost lay = old(self).layout();
        let ghost lvl = old(self).level();
        match v {
            JsonValue::Null => self.write_line("type: undefined"),
            JsonValue::Bool(_) => self.write_line("type: boolean"),
            JsonValue::Number => self.write_line("type: number"),
            JsonValue::Str(s) => {
                let date = is_date(s.as_str());
                self.write_string_type(date);
            },
            JsonValue::Array(a) => {
                self.write_line("type: array");
                self.write_line("items:");
                self.add_offset(1);
                if a.len() > 0 {
                    self.write_schema(&a[0]);
                } else {
                    self.write_line("type: undefined");
                }
                self.add_offset(-1);
                assert(self.text() =~= old(self).text() + value_text(lay, *v, lvl));
            },
            JsonValue::Object(m) => {
                self.write_line("type: object");
                self.write_line("properties:");
                self.add_offset(1);
                let ghost start = self.text();
                let mut i: usize = 0;
                while i < m.len()
                    invariant
                        i <= m.len(),
                        *v == JsonValue::Object(*m),
                        self.level() == lvl + 1,
                        self.layout() == lay,
                        lvl + 2 * walk_depth(*v) + 1 <= LEVEL_LIMIT,
                        members_depth(*v, i as int) <= members_depth(*v, 0),
                        self.text() + members_text(lay, *v, i as int, lvl + 1) == start
                            + members_text(lay, *v, 0, lvl + 1),
                    decreases m.len() - i,
                {
                    proof {
                        lemma_members_depth_bound(*v, i as int);
                    }
                    let ghost before = self.text();
                    self.add_property(&m[i].0, &m[i].1);
                    assert(before + members_text(lay, *v, i as int, lvl + 1) =~= self.text()
                        + members_text(lay, *v, i + 1, lvl + 1));
                    i = i + 1;
                }
                self.add_offset(-1);
                assert(self.text() =~= old(self).text() + value_text(lay, *v, lvl));
            },
        }
    }

    /// Writes one object member: `key:`, then the value's schema one level
    /// deeper.
    fn add_property(&mut self, key: &String, value: &JsonValue)
        requires
            old(self).level() + 2 * walk_depth(*value) + 2 <= LEVEL_LIMIT,
        ensures
            final(self).text() == old(self).text() + property_text(
                old(self).layout(),
                key@,
                *value,
                old(self).level(),
            ),
            final(self).level() == old(self).level(),
            final(self).layout() == old(self).layout(),
        decreases *value, 2int, 0int,
    {
        let name = key.clone().concat(":");
        self.write_line(name.as_str());
        self.add_offset(1);
        self.write_schema(value);
        self.add_offset(-1);
        assert(self.text() =~= old(self).text() + property_text(
            old(self).layout(),
            key@,
            *value,
            old(self).level(),
        ));
    }
}

impl Converter {
    /// Writes the schema of a whole document: the first element of a
    /// top-level array (undefined for an empty one), else the document.
    pub fn object_convert(&mut self, v: &JsonValue)
        requires
            old(self).level() + 2 * walk_depth(*v) + 1 <= LEVEL_LIMIT,
        ensures
            final(self).text() == old(self).text() + document_text(
                old(self).layout(),
                *v,
                old(self).level(),
            ),
            final(self).level() == old(self).level(),
            final(self).layout() == old(self).layout(),
    {
        proof {
            lemma_described_depth(*v);
        }
        let null = JsonValue::Null;
        let item: &JsonValue = match v {
            JsonValue::Array(a) => if a.len() > 0 {
                &a[0]
            } else {
                &null
            },
            _ => v,
        };
        self.write_schema(item);
    }

    /// Parses a JSON text and writes the schema of the document.
    pub fn convert_json(&mut self, json_str: &str) -> (r: Result<(), SchemaError>)
        requires
            old(self).level() + 257 <= LEVEL_LIMIT,
        ensures
            final(self).level() == old(self).level(),
            final(self).layout() == old(self).layout(),
            match parsed_json(json_str@) {
                Some(v) => r is Ok && final(self).text() == old(self).text() + document_text(
                    old(self).layout(),
                    v,
                    old(self).level(),
                ),
                None => {
                    &&& r == Err::<(), SchemaError>(SchemaError::MalformedJson)
                    &&& final(self).text() == old(self).text()
                },
            },
    {
        match parse_json(json_str) {
            Ok(v) => {
                self.object_convert(&v);
                Ok(())
            },
            Err(_) => Err(SchemaError::MalformedJson),
        }
    }

    /// Writes the block of one parameter.
    fn pqh_convert(&mut self, key: &str, kind: ParamKind)
        requires
            old(self).level() + 2 <= LEVEL_LIMIT,
        ensures
            final(self).text() == old(self).text() + param_text(
                old(self).layout(),
                old(self).level(),
                key@,
                kind,
            ),
            final(self).level() == old(self).level(),
            final(self).layout() == old(self).layout(),
    {
        let name = String::from_str("- name: ").concat(key);
        self.write_line(name.as_str());
        self.add_offset(1);
        match kind {
            ParamKind::Param => self.write_line("in: path"),
            ParamKind::Query => self.write_line("in: query"),
            ParamKind::Header => self.write_line("in: header"),
        }
        self.write_line("required: true");
        self.write_line("schema:");
        self.add_offset(1);
        self.write_line("type: string");
        self.add_offset(-2);
        assert(self.text() =~= old(self).text() + param_text(
            old(self).layout(),
            old(self).level(),
            key@,
            kind,
        ));
    }

    /// Writes the blocks of the parameters named in `keys`, in order.
    fn params_convert(&mut self, keys: &Vec<&str>, kind: ParamKind)
        requires
            old(self).level() + 2 <= LEVEL_LIMIT,
        ensures
            final(self).text() == old(self).text() + params_text(
                old(self).layout(),
                old(self).level(),
                str_views(keys@),
                kind,
            ),
            final(self).level() == old(self).level(),
            final(self).layout() == old(self).layout(),
    {
        let ghost lay = self.layout();
        let ghost lvl = self.level();
        let mut i: usize = 0;
        while i < keys.len()
            invariant
                i <= keys.len(),
                self.level() == lvl,
                self.layout() == lay,
                lvl + 2 <= LEVEL_LIMIT,
                self.text() == old(self).text() + params_text(
                    lay,
                    lvl,
                    str_views(keys@).subrange(0, i as int),
                    kind,
                ),
            decreases keys.len() - i,
        {
            self.pqh_convert(keys[i], kind);
            assert(str_views(keys@).subrange(0, i + 1).drop_last() =~= str_views(keys@).subrange(
                0,
                i as int,
            ));
            assert(self.text() =~= old(self).text() + params_text(
                lay,
                lvl,
                str_views(keys@).subrange(0, i + 1),
                kind,
            ));
            i = i + 1;
        }
        assert(str_views(keys@).subrange(0, keys.len() as int) =~= str_views(keys@));
    }

    /// Writes the request body block and returns to the level it started at.
    fn req_convert(&mut self, json_str: &str) -> (r: Result<(), SchemaError>)
        requires
            old(self).level() + 261 <= LEVEL_LIMIT,
        ensures
            final(self).level() == old(self).level(),
            final(self).layout() == old(self).layout(),
            match parsed_json(json_str@) {
                Some(v) => r is Ok && final(self).text() == old(self).text() + request_text(
                    old(self).layout(),
                    v,
                    old(self).level(),
                ),
                None => r == Err::<(), SchemaError>(SchemaError::MalformedJson),
            },
    {
        self.write_line("requestBody:");
        self.add_offset(1);
        self.write_line("content:");
        self.add_offset(1);
        self.write_line("application/json:");
        self.add_offset(1);
        self.write_line("schema:");
        self.add_offset(1);
        let r = self.convert_json(json_str);
        self.add_offset(-4);
        if r.is_ok() {
            assert(self.text() =~= old(self).text() + request_text(
                old(self).layout(),
                parsed_json(json_str@)->Some_0,
                old(self).level(),
            ));
        }
        r
    }

    /// Writes the response block; the level is left at that of its schema.
    fn res_convert(&mut self, json_str: &str) -> (r: Result<(), SchemaError>)
        requires
            old(self).level() + 262 <= LEVEL_LIMIT,
        ensures
            final(self).level() == old(self).level() + 5,
            final(self).layout() == old(self).layout(),
            match parsed_json(json_str@) {
                Some(v) => r is Ok && final(self).text() == old(self).text() + response_text(
                    old(self).layout(),
                    v,
                    old(self).level(),
                ),
                None => r == Err::<(), SchemaError>(SchemaError::MalformedJson),
            },
    {
        self.write_line("responses:");
        self.add_offset(1);
        self.write_line("200:");
        self.add_offset(1);
        self.write_line("content:");
        self.add_offset(1);
        self.write_line("application/json:");
        self.add_offset(1);
        self.write_line("schema:");
        self.add_offset(1);
        let r = self.convert_json(json_str);
        if r.is_ok() {
            assert(self.text() =~= old(self).text() + response_text(
                old(self).layout(),
                parsed_json(json_str@)->Some_0,
                old(self).level(),
            ));
        }
        r
    }

    /// Writes the lines before the parameter blocks and leaves the level at
    /// that of the blocks.
    fn write_heading(&mut self, schema: &Schema)
        requires
            old(self).level() + 3 <= LEVEL_LIMIT,
        ensures
            final(self).text() == old(self).text() + heading_text(
                old(self).layout(),
                old(self).level(),
                *schema,
            ),
            final(self).level() == old(self).level() + 3,
            final(self).layout() == old(self).layout(),
    {
        let head = schema.path.clone().concat(":");
        self.write_line(head.as_str());
        self.add_offset(1);
        let method = lowercase(schema.method.as_str()).concat(":");
        self.write_line(method.as_str());
        self.add_offset(1);
        self.write_line("description: unknown");
        self.write_line("tags:");
        self.add_offset(1);
        self.write_line("- unknown");
        self.add_offset(-1);
        self.write_line("parameters:");
        self.add_offset(1);
        assert(self.text() =~= old(self).text() + heading_text(
            old(self).layout(),
            old(self).level(),
            *schema,
        ));
    }

    /// Writes the description of the operation `schema` and returns all the
    /// text written so far; fails where a body is not valid JSON.
    pub fn convert_schema(&mut self, schema: &Schema) -> (r: Result<&str, SchemaError>)
        requires
            old(self).level() <= MAX_START_LEVEL,
        ensures
            final(self).layout() == old(self).layout(),
            malformed(*schema) ==> r == Err::<&str, SchemaError>(SchemaError::MalformedJson),
            !malformed(*schema) ==> {
                &&& r is Ok
                &&& r->Ok_0@ == final(self).text()
                &&& final(self).text() == old(self).text() + operation_text(
                    old(self).layout(),
                    old(self).level(),
                    *schema,
                    match schema.body {
                        Some(b) => parsed_json(b@),
                        None => None,
                    },
                    parsed_json(schema.res@)->Some_0,
                )
                &&& final(self).level() == old(self).level() + 7
            },
    {
        let ghost lay = old(self).layout();
        let ghost lvl = old(self).level();
        let ghost t0 = old(self).text();
        self.write_heading(schema);
        let ghost t1 = self.text();
        let params = schema.get_param_keys();
        self.params_convert(&params, ParamKind::Param);
        let queries = schema.get_query_keys();
        self.params_convert(&queries, ParamKind::Query);
        let headers = schema.get_header_keys();
        self.params_convert(&headers, ParamKind::Header);
        self.add_offset(-1);
        assert(self.text() =~= t1 + parameters_text(lay, lvl + 3, *schema));
        let ghost t2 = self.text();
        let ghost req = if schema.body is Some {
            request_text(lay, parsed_json(schema.body->Some_0@)->Some_0, lvl + 2)
        } else {
            Seq::<char>::empty()
        };
        match &schema.body {
            Some(b) => {
                let r = self.req_convert(b.as_str());
                if r.is_err() {
                    return Err(SchemaError::MalformedJson);
                }
            },
            None => {},
        }
        assert(self.text() =~= t2 + req);
        let ghost t3 = self.text();
        let r = self.res_convert(schema.res.as_str());
        if r.is_err() {
            return Err(SchemaError::MalformedJson);
        }
        assert(self.text() == t3 + response_text(lay, parsed_json(schema.res@)->Some_0, lvl + 2));
        assert(self.text() =~= old(self).text() + operation_text(
            lay,
            lvl,
            *schema,
            match schema.body {
                Some(b) => parsed_json(b@),
                None => None,
            },
            parsed_json(schema.res@)->Some_0,
        ));
        Ok(self.swag_schema.as_str())
    }
}

/// Emitting the same JSON text twice, with the same layout and from the same
/// level, appends the same text both times.
pub proof fn lemma_emission_repeatable(a: Converter, b: Converter, json: Seq<char>)
    requires
        a.layout() == b.layout(),
        a.level() == b.level(),
        parsed_json(json) is Some,
    ensures
        document_text(a.layout(), parsed_json(json)->Some_0, a.level()) == document_text(
            b.layout(),
            parsed_json(json)->Some_0,
            b.level(),
        ),
{
}

/// A document that is a non-empty array, whose first element is not itself
/// an array, has the schema of that first element.
pub proof fn lemma_array_reduces_to_first(lay: Layout, a: Vec<JsonValue>, lvl: nat)
    requires
        a.len() > 0,
        !(a[0] is Array),
    ensures
        document_text(lay, JsonValue::Array(a), lvl) == document_text(lay, a[0], lvl),
{
}

/// Relies on str::to_lowercase: the lowercase form of a text.
#[verifier::external_body]
fn lowercase(s: &str) -> (r: String)
    ensures
        r@ == lower_of(s@),
{
    s.to_lowercase()
}

/// The date pattern: a date with `-` or `/` between its parts, optionally
/// followed by a time and a `Z`.
pub const DATE_PATTERN: &'static str = r"^\d{4}[-/]\d{2}[-/]\d{2}(?:[ T]\d{2}:\d{2}:\d{2}(?:Z)?)?$";

/// Relies on regex::Regex::new and Regex::is_match: whether the date
/// pattern, which compiles, matches the text.
#[verifier::external_body]
fn is_date(s: &str) -> (r: bool)
    ensures
        r == date_match(s@),
{
    regex::Regex::new(DATE_PATTERN).unwrap().is_match(s)
}

} // verus!

//! The rules this library exports: the HTTP repository rule that drives
//! the archive materialization pipeline, and a minimal sibling rule that
//! only collects a fetched body. The host performs the actual network
//! fetch and hands each rule the response headers and the body stream.

use vstd::prelude::*;

use crate::dest::WriteDirectory;
use crate::errors::{ErrorModel, PipelineError};
use crate::pipeline::{materialize, spec_materialize, TreeModel};
use crate::stream::{spec_drained, stage_stream, ChunkResult, StreamWrapper};
use crate::text::str_eq;

verus! {

/// The kind of a rule attribute's value.
#[derive(Copy, Clone, Debug, PartialEq, Eq, Structural)]
pub enum AttributeKind {
    Text,
}

/// The declaration of one attribute in a rule's configuration surface.
#[derive(Debug)]
pub struct AttributeSpec {
    pub name: String,
    pub kind: AttributeKind,
    pub required: bool,
}

/// One attribute value handed to a rule.
#[derive(Debug)]
pub enum Attribute {
    Text(String),
}

/// The first text value bound to `key` among the rule's attributes.
pub open spec fn spec_find_text(attrs: Seq<(String, Attribute)>, key: Seq<char>) -> Option<
    Seq<char>,
>
    decreases attrs.len(),
{
    if attrs.len() == 0 {
        None
    } else if attrs.first().0@ == key {
        match attrs.first().1 {
            Attribute::Text(t) => Some(t@),
        }
    } else {
        spec_find_text(attrs.drop_first(), key)
    }
}

/// Finds the first text attribute named `key`.
pub fn find_text_attr(attrs: &Vec<(String, Attribute)>, key: &str) -> (r: Option<String>)
    ensures
        match r {
            Some(s) => spec_find_text(attrs@, key@) == Some(s@),
            None => spec_find_text(attrs@, key@) is None,
        },
{
    let n = attrs.len();
    let mut i: usize = 0;
    proof {
        assert(attrs@.skip(0) =~= attrs@);
    }
    while i < n
        invariant
            0 <= i <= n,
            n == attrs@.len(),
            spec_find_text(attrs@, key@) == spec_find_text(attrs@.skip(i as int), key@),
        decreases n - i,
    {
        proof {
            assert(attrs@.skip(i as int).first() == attrs@[i as int]);
            assert(attrs@.skip(i as int).drop_first() =~= attrs@.skip(i as int + 1));
        }
        if str_eq(attrs[i].0.as_str(), key) {
            let found = match &attrs[i].1 {
                Attribute::Text(t) => t.clone(),
            };
            return Some(found);
        }
        i += 1;
    }
    None
}

/// The first value of the header named `key`, compared exactly, case as
/// delivered.
pub open spec fn spec_find_header(headers: Seq<(String, String)>, key: Seq<char>) -> Option<
    Seq<char>,
>
    decreases headers.len(),
{
    if headers.len() == 0 {
        None
    } else if headers.first().0@ == key {
        Some(headers.first().1@)
    } else {
        spec_find_header(headers.drop_first(), key)
    }
}

/// Finds the first response header named `key`.
pub fn find_header(headers: &Vec<(String, String)>, key: &str) -> (r: Option<String>)
    ensures
        match r {
            Some(s) => spec_find_header(headers@, key@) == Some(s@),
            None => spec_find_header(headers@, key@) is None,
        },
{
    let n = headers.len();
    let mut i: usize = 0;
    proof {
        assert(headers@.skip(0) =~= headers@);
    }
    while i < n
        invariant
            0 <= i <= n,
            n == headers@.len(),
            spec_find_header(headers@, key@) == spec_find_header(headers@.skip(i as int), key@),
        decreases n - i,
    {
        proof {
            assert(headers@.skip(i as int).first() == headers@[i as int]);
            assert(headers@.skip(i as int).drop_first() =~= headers@.skip(i as int + 1));
        }
        if str_eq(headers[i].0.as_str(), key) {
            return Some(headers[i].1.clone());
        }
        i += 1;
    }
    None
}

/// Reads the two required text attributes, `name` and `url`; a missing
/// one is a configuration error, surfaced before any network activity.
pub fn required_attributes(attrs: &Vec<(String, Attribute)>) -> (r: Result<
    (String, String),
    PipelineError,
>)
    ensures
        match r {
            Ok(p) => spec_find_text(attrs@, "name"@) == Some(p.0@) && spec_find_text(
                attrs@,
                "url"@,
            ) == Some(p.1@),
            Err(e) => if spec_find_text(attrs@, "name"@) is None {
                e@ == ErrorModel::MissingAttribute("name"@)
            } else {
                spec_find_text(attrs@, "url"@) is None && e@ == ErrorModel::MissingAttribute(
                    "url"@,
                )
            },
        },
{
    let name = match find_text_attr(attrs, "name") {
        None => {
            return Err(PipelineError::MissingAttribute("name".to_owned()));
        },
        Some(n) => n,
    };
    let url = match find_text_attr(attrs, "url") {
        None => {
            return Err(PipelineError::MissingAttribute("url".to_owned()));
        },
        Some(u) => u,
    };
    Ok((name, url))
}

/// The rule that fetches a remote archive over HTTP and materializes it
/// as a repository directory.
pub struct HttpRule {}

/// What the HTTP rule yields on a fetched response: both required
/// attributes must be present, and the pipeline then runs under the
/// `name` attribute, reading the two transport headers from the response.
pub open spec fn spec_execute(
    attrs: Seq<(String, Attribute)>,
    headers: Seq<(String, String)>,
    chunks: Seq<ChunkResult>,
) -> Result<TreeModel, ErrorModel> {
    match spec_find_text(attrs, "name"@) {
        None => Err(ErrorModel::MissingAttribute("name"@)),
        Some(n) => match spec_find_text(attrs, "url"@) {
            None => Err(ErrorModel::MissingAttribute("url"@)),
            Some(_u) => spec_materialize(
                n,
                spec_find_header(headers, "content-encoding"@),
                spec_find_header(headers, "content-disposition"@),
                chunks,
            ),
        },
    }
}

impl HttpRule {
    /// The rule's registered name.
    pub fn name(&self) -> (r: String)
        ensures
            r@ == "http-repository"@,
    {
        "http-repository".to_owned()
    }

    /// The rule's configuration surface: `name` and `url` are required
    /// text attributes, `integrity` is optional text.
    pub fn attribute_spec(&self) -> (r: Vec<AttributeSpec>)
        ensures
            r@.len() == 3,
            r@[0].name@ == "name"@ && r@[0].kind == AttributeKind::Text && r@[0].required,
            r@[1].name@ == "url"@ && r@[1].kind == AttributeKind::Text && r@[1].required,
            r@[2].name@ == "integrity"@ && r@[2].kind == AttributeKind::Text && !r@[2].required,
    {
        let mut v: Vec<AttributeSpec> = Vec::new();
        v.push(
            AttributeSpec { name: "name".to_owned(), kind: AttributeKind::Text, required: true },
        );
        v.push(AttributeSpec { name: "url".to_owned(), kind: AttributeKind::Text, required: true });
        v.push(
            AttributeSpec {
                name: "integrity".to_owned(),
                kind: AttributeKind::Text,
                required: false,
            },
        );
        v
    }

    /// Runs the rule on a fetched response: validates the required
    /// attributes, then materializes the fetched archive under the
    /// `name` attribute. Only a successful run returns a directory, and
    /// that directory is committed.
    pub fn execute(
        &self,
        attrs: &Vec<(String, Attribute)>,
        headers: &Vec<(String, String)>,
        body: StreamWrapper,
    ) -> (r: Result<WriteDirectory, PipelineError>)
        requires
            body.wf(),
        ensures
            match r {
                Ok(dir) => {
                    &&& dir.spec_committed()
                    &&& dir.spec_visible() == Some(dir.spec_entries())
                    &&& spec_execute(attrs@, headers@, body.spec_remaining()) == Ok::<
                        TreeModel,
                        ErrorModel,
                    >(
                        (TreeModel {
                            name: dir.spec_name(),
                            entries: dir.spec_entries(),
                            skipped: dir.spec_skipped(),
                        }),
                    )
                },
                Err(e) => spec_execute(attrs@, headers@, body.spec_remaining()) == Err::<
                    TreeModel,
                    ErrorModel,
                >(e@),
            },
    {
        let p = match required_attributes(attrs) {
            Err(e) => {
                return Err(e);
            },
            Ok(p) => p,
        };
        let enc = find_header(headers, "content-encoding");
        let disp = find_header(headers, "content-disposition");
        let enc_ref: Option<&str> = match &enc {
            Some(s) => Some(s.as_str()),
            None => None,
        };
        let disp_ref: Option<&str> = match &disp {
            Some(s) => Some(s.as_str()),
            None => None,
        };
        materialize(p.0, enc_ref, disp_ref, body)
    }
}

/// The minimal sibling rule: fetches one resource and hands back its
/// whole body, collected in arrival order.
#[derive(Default)]
pub struct StdRule {}

impl StdRule {
    /// The rule's registered name.
    pub fn name(&self) -> (r: String)
        ensures
            r@ == "http"@,
    {
        "http".to_owned()
    }

    /// Collects the fetched body, chunk by chunk, in arrival order; a
    /// stream failure fails the rule.
    pub fn run(&self, body: StreamWrapper) -> (r: Result<Vec<u8>, PipelineError>)
        requires
            body.wf(),
        ensures
            match r {
                Ok(b) => spec_drained(body.spec_remaining()) == Some(b@),
                Err(e) => e == PipelineError::Transport && spec_drained(body.spec_remaining())
                    is None,
            },
    {
        let mut stream = body;
        match stage_stream(&mut stream) {
            Err(e) => Err(e),
            Ok(staged) => Ok(staged.into_read()),
        }
    }
}

/// The rule set this library registers: each rule under its name.
pub fn rule_set() -> (r: Vec<(String, HttpRule)>)
    ensures
        r@.len() == 1,
        r@[0].0@ == "http-repository"@,
{
    let mut v: Vec<(String, HttpRule)> = Vec::new();
    let rule = HttpRule {};
    let name = rule.name();
    v.push((name, rule));
    v
}

} // verus!

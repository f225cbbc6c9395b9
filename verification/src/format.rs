//! The output format of a rendered response: an HTML narrative, JSON,
//! pretty-printed JSON, or YAML. The three data formats honor collapsing;
//! the HTML narrative is built from the unwrapped result and does not, a
//! known, kept inconsistency.

use vstd::prelude::*;
use crate::maven::split_chars;
use crate::rationale::{EvaluationResult, Severity};
use crate::render::{
    html_doc, is_view_field, json_report, json_report_exec, pretty_report, pretty_report_exec,
    report_of, yaml_report, yaml_report_exec, FieldSelection, FormatError,
};
use crate::report::support_spec;
use crate::response::{collapse_v, resp_of, Response};

verus! {

/// A concrete output format.
#[derive(Debug, Clone, Copy, PartialEq, Eq, Structural)]
pub enum Format {
    Html,
    Json,
    JsonPretty,
    Yaml,
}

/// The format a boundary-facing token selects, matched without regard to
/// ASCII case: JSON and YAML under their names and media types, `pretty` for
/// pretty JSON, and HTML for anything else (the default fallback, not an
/// error).
pub open spec fn token_format(s: Seq<char>) -> Format {
    let t = crate::trusted::ascii_lower(s);
    if t == "json"@ || t == "application/json"@ {
        Format::Json
    } else if t == "pretty"@ {
        Format::JsonPretty
    } else if t == "yaml"@ || t == "application/yaml"@ || t == "application/x-yaml"@ || t
        == "text/x-yaml"@ {
        Format::Yaml
    } else {
        Format::Html
    }
}

/// The recognized tokens are already lower case: folding changes none of
/// them.
proof fn lemma_lower_tokens()
    ensures
        crate::trusted::ascii_lower("json"@) == "json"@,
        crate::trusted::ascii_lower("application/json"@) == "application/json"@,
        crate::trusted::ascii_lower("pretty"@) == "pretty"@,
        crate::trusted::ascii_lower("yaml"@) == "yaml"@,
        crate::trusted::ascii_lower("application/yaml"@) == "application/yaml"@,
        crate::trusted::ascii_lower("application/x-yaml"@) == "application/x-yaml"@,
        crate::trusted::ascii_lower("text/x-yaml"@) == "text/x-yaml"@,
{
    reveal_strlit("json");
    reveal_strlit("application/json");
    reveal_strlit("pretty");
    reveal_strlit("yaml");
    reveal_strlit("application/yaml");
    reveal_strlit("application/x-yaml");
    reveal_strlit("text/x-yaml");
    assert(crate::trusted::ascii_lower("json"@) =~= "json"@);
    assert(crate::trusted::ascii_lower("application/json"@) =~= "application/json"@);
    assert(crate::trusted::ascii_lower("pretty"@) =~= "pretty"@);
    assert(crate::trusted::ascii_lower("yaml"@) =~= "yaml"@);
    assert(crate::trusted::ascii_lower("application/yaml"@) =~= "application/yaml"@);
    assert(crate::trusted::ascii_lower("application/x-yaml"@) =~= "application/x-yaml"@);
    assert(crate::trusted::ascii_lower("text/x-yaml"@) =~= "text/x-yaml"@);
}

impl From<String> for Format {
    fn from(name: String) -> (r: Self) {
        proof {
            lemma_lower_tokens();
        }
        let t = name.as_str();
        if t.eq_ignore_ascii_case("json") || t.eq_ignore_ascii_case("application/json") {
            Format::Json
        } else if t.eq_ignore_ascii_case("pretty") {
            Format::JsonPretty
        } else if t.eq_ignore_ascii_case("yaml") || t.eq_ignore_ascii_case("application/yaml")
            || t.eq_ignore_ascii_case("application/x-yaml") || t.eq_ignore_ascii_case(
            "text/x-yaml",
        ) {
            Format::Yaml
        } else {
            Format::Html
        }
    }
}

impl vstd::std_specs::convert::FromSpecImpl<String> for Format {
    open spec fn obeys_from_spec() -> bool {
        true
    }

    open spec fn from_spec(name: String) -> Format {
        token_format(name@)
    }
}

/// The selection a fields argument asks for: everything where absent, the
/// named fields where given.
pub open spec fn spec_selection(fields: Option<String>) -> FieldSelection {
    match fields {
        Option::Some(f) => FieldSelection {
            name: split_chars(f@, ',').contains("name"@),
            input: split_chars(f@, ',').contains("input"@),
            satisfied: split_chars(f@, ',').contains("satisfied"@),
            reason: split_chars(f@, ',').contains("reason"@),
            rationale: split_chars(f@, ',').contains("rationale"@),
        },
        Option::None => FieldSelection {
            name: true,
            input: true,
            satisfied: true,
            reason: true,
            rationale: true,
        },
    }
}

/// Whether every requested field name is a field of the view.
pub open spec fn fields_valid(fields: Option<String>) -> bool {
    match fields {
        Option::Some(f) => forall|k: int| 0 <= k < split_chars(f@, ',').len() ==> is_view_field(
            #[trigger] split_chars(f@, ',')[k],
        ),
        Option::None => true,
    }
}

impl Format {
    /// Render an evaluation result in this format: the response is wrapped,
    /// collapsed at `Error` severity when asked, projected to the requested
    /// fields, and written out. A requested field that is not part of the
    /// view fails with the invalid-field error, and nothing else can fail
    /// except the YAML emitter on a scalar it refuses; HTML always succeeds,
    /// rendering the unwrapped narrative, and ignores both collapsing and
    /// projection.
    pub fn format(&self, result: &EvaluationResult, collapse: bool, fields: Option<String>) -> (r:
        Result<String, FormatError>)
        ensures
            ({
                let tree = if collapse {
                    collapse_v(resp_of(*result), Severity::Error)
                } else {
                    resp_of(*result)
                };
                let rv = report_of(tree);
                let sel = spec_selection(fields);
                match self {
                    Format::Html => r matches Result::Ok(t) && t@ == html_doc(
                        support_spec(result.rationale),
                    ),
                    Format::Json => if fields_valid(fields) {
                        r matches Result::Ok(t) && t@ == json_report(rv, sel)
                    } else {
                        r matches Result::Err(e) && e is InvalidViewField
                    },
                    Format::JsonPretty => if fields_valid(fields) {
                        r matches Result::Ok(t) && t@ == pretty_report(rv, sel)
                    } else {
                        r matches Result::Err(e) && e is InvalidViewField
                    },
                    Format::Yaml => if !fields_valid(fields) {
                        r matches Result::Err(e) && e is InvalidViewField
                    } else if crate::render::yaml_report_fails(rv, sel) {
                        r matches Result::Err(e) && e is Yaml
                    } else {
                        r matches Result::Ok(t) && t@ == yaml_report(rv, sel)
                    },
                }
            }),
    {
        match self {
            Format::Html => {
                let sentences = crate::report::support(&result.rationale);
                Result::Ok(crate::render::html_doc_exec(&sentences))
            },
            _ => {
                let wrapped = Response::new(result);
                let wrapped = if collapse {
                    wrapped.collapse(Severity::Error)
                } else {
                    wrapped
                };
                let view = wrapped.as_view();
                let sel = match &fields {
                    Option::Some(f) => crate::render::parse_fields(f.as_str())?,
                    Option::None => FieldSelection::all(),
                };
                proof {
                    assert(crate::render::report_view(view) == report_of(wrapped@));
                    assert(sel == spec_selection(fields));
                }
                match self {
                    Format::Json => json_report_exec(&view, sel),
                    Format::JsonPretty => pretty_report_exec(&view, sel),
                    Format::Yaml => yaml_report_exec(&view, sel),
                    Format::Html => Result::Err(FormatError::InvalidViewField),
                }
            },
        }
    }

    /// The MIME string matching this format.
    pub fn content_type(&self) -> (r: &'static str)
        ensures
            match self {
                Format::Html => r@ == "text/html; charset=utf-8"@,
                Format::Json => r@ == "application/json"@,
                Format::JsonPretty => r@ == "application/json"@,
                Format::Yaml => r@ == "application/yaml"@,
            },
    {
        match self {
            Format::Html => "text/html; charset=utf-8",
            Format::Json => "application/json",
            Format::JsonPretty => "application/json",
            Format::Yaml => "application/yaml",
        }
    }
}

} // verus!

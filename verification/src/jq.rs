use vstd::prelude::*;

verus! {

#[verifier::external_type_specification]
#[verifier::external_body]
pub struct ExExpression<'a>(jmespath::Expression<'a>);

#[verifier::external_type_specification]
#[verifier::external_body]
pub struct ExVariable(jmespath::Variable);

/// A compiled JMESPath query, kept beside the text it was compiled from; the
/// contracts speak of the text.
pub struct JmesQuery {
    text: String,
    expr: jmespath::Expression<'static>,
}

impl JmesQuery {
    /// The query text this value was compiled from.
    pub closed spec fn text(&self) -> Seq<char> {
        self.text@
    }
}

/// A parsed JSON document, kept beside the text it was parsed from.
pub struct JsonDoc {
    text: String,
    var: jmespath::Rcvar,
}

impl JsonDoc {
    /// The JSON text this value was parsed from.
    pub closed spec fn text(&self) -> Seq<char> {
        self.text@
    }
}

/// Whether `jmespath::compile` accepts the query text, and the diagnostic
/// when it does not; both depend on the text alone.
pub uninterp spec fn jmes_compile_spec(q: Seq<char>) -> Result<(), Seq<char>>;

/// Whether `jmespath::Variable::from_json` accepts the text, and the
/// diagnostic when it does not; both depend on the text alone.
pub uninterp spec fn jmes_json_spec(s: Seq<char>) -> Result<(), Seq<char>>;

/// What `jmespath::Expression::search` makes of a document, rendered back as
/// JSON text, or the diagnostic of the failed search; under the default
/// runtime both depend on the query and the document alone.
pub uninterp spec fn jmes_search_spec(q: Seq<char>, json: Seq<char>) -> Result<Seq<char>, Seq<char>>;

/// Relies on `jmespath::compile`: the compiled expression is a function of
/// the query text, and the error's text likewise.
#[verifier::external_body]
fn jmes_compile(query: &str) -> (r: Result<JmesQuery, String>)
    ensures
        r is Ok ==> (r->Ok_0).text() == query@ && jmes_compile_spec(query@) is Ok,
        r is Err ==> jmes_compile_spec(query@) == Err::<(), _>((r->Err_0)@),
{
    match jmespath::compile(query) {
        Ok(expr) => Ok(JmesQuery { text: query.to_string(), expr }),
        Err(e) => Err(format!("{}", e)),
    }
}

/// Relies on `jmespath::Variable::from_json`: acceptance and diagnostic are
/// functions of the JSON text.
#[verifier::external_body]
fn jmes_parse_json(s: &str) -> (r: Result<JsonDoc, String>)
    ensures
        r is Ok ==> (r->Ok_0).text() == s@ && jmes_json_spec(s@) is Ok,
        r is Err ==> jmes_json_spec(s@) == Err::<(), _>((r->Err_0)@),
{
    match jmespath::Variable::from_json(s) {
        Ok(v) => Ok(JsonDoc { text: s.to_string(), var: jmespath::Rcvar::new(v) }),
        Err(e) => Err(e),
    }
}

/// Relies on `jmespath::Expression::search` under the default runtime, with
/// the result written back as JSON text by the variable's display form.
#[verifier::external_body]
fn jmes_search(query: &JmesQuery, doc: &JsonDoc) -> (r: Result<String, String>)
    ensures
        r is Ok ==> jmes_search_spec(query.text(), doc.text()) == Ok::<_, Seq<char>>((r->Ok_0)@),
        r is Err ==> jmes_search_spec(query.text(), doc.text()) == Err::<Seq<char>, _>(
            (r->Err_0)@,
        ),
{
    match query.expr.search(&doc.var) {
        Ok(res) => Ok(res.to_string()),
        Err(e) => Err(format!("{}", e)),
    }
}

/// Evaluates a JMESPath query against a JSON document: the query is compiled,
/// the document parsed, the search run; the first failure is reported, its
/// message naming the step that failed.
pub fn jq(json_str: &str, query: &str) -> (r: Result<String, String>)
    ensures
        ({
            match jmes_compile_spec(query@) {
                Err(d) => (r matches Err(m) && m@ == "Failed to compile JMESPath query: "@
                    + query@ + ", error: "@ + d),
                Ok(_) => match jmes_json_spec(json_str@) {
                    Err(d) => (r matches Err(m) && m@
                        == "Failed to convert JSON string to variable: "@ + d),
                    Ok(_) => match jmes_search_spec(query@, json_str@) {
                        Ok(s) => r matches Ok(m) && m@ == s,
                        Err(d) => (r matches Err(m) && m@
                            == "Failed to execute JMESPath query: "@ + query@ + ", error: "@ + d),
                    },
                },
            }
        }),
{
    let expr = match jmes_compile(query) {
        Ok(q) => q,
        Err(e) => {
            let mut m = String::new();
            m.append("Failed to compile JMESPath query: ");
            m.append(query);
            m.append(", error: ");
            m.append(e.as_str());
            proof {
                assert(m@ =~= "Failed to compile JMESPath query: "@ + query@ + ", error: "@ + e@);
            }
            return Err(m);
        },
    };
    let doc = match jmes_parse_json(json_str) {
        Ok(d) => d,
        Err(e) => {
            let mut m = String::new();
            m.append("Failed to convert JSON string to variable: ");
            m.append(e.as_str());
            proof {
                assert(m@ =~= "Failed to convert JSON string to variable: "@ + e@);
            }
            return Err(m);
        },
    };
    match jmes_search(&expr, &doc) {
        Ok(res) => Ok(res),
        Err(e) => {
            let mut m = String::new();
            m.append("Failed to execute JMESPath query: ");
            m.append(query);
            m.append(", error: ");
            m.append(e.as_str());
            proof {
                assert(m@ =~= "Failed to execute JMESPath query: "@ + query@ + ", error: "@ + e@);
            }
            Err(m)
        },
    }
}

} // verus!

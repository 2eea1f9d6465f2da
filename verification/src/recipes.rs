//! Recipe records and per-format recipe parsers.
//!
//! A recipe document exposes a package name and version; a co-located
//! monitoring sidecar may link it to an upstream version-tracking project.
//! Every format family shares one parse algorithm: extract name and version
//! (both must be present and non-empty), then attach the first available
//! sidecar, a malformed sidecar degrading to "no monitoring" rather than
//! failing the recipe. That degrade policy is uniform across all formats.

use vstd::prelude::*;

use crate::monitoring::{monitoring_doc, monitoring_of_doc, Monitoring, MonitoringView};

verus! {

/// The mathematical value of a [`Recipe`] record.
#[verifier::ext_equal]
pub ghost struct RecipeView {
    pub name: Seq<char>,
    pub version: Seq<char>,
    pub monitoring: Option<MonitoringView>,
}

/// A parsed package recipe: name, version, and optional monitoring metadata.
#[derive(Debug, Clone)]
pub struct Recipe {
    pub name: String,
    pub version: String,
    pub monitoring: Option<Monitoring>,
}

impl View for Recipe {
    type V = RecipeView;

    open spec fn view(&self) -> RecipeView {
        RecipeView {
            name: self.name@,
            version: self.version@,
            monitoring: self.monitoring.deep_view(),
        }
    }
}

impl DeepView for Recipe {
    type V = RecipeView;

    open spec fn deep_view(&self) -> RecipeView {
        self.view()
    }
}

/// The mathematical value of a [`RecipeError`].
pub ghost enum RecipeErrorView {
    InvalidRecipe { path: Seq<char> },
    IO { path: Seq<char> },
    InvalidMonitoring { path: Seq<char> },
    UnsupportedRecipe,
}

/// Failure to produce a recipe from a file.
#[derive(Debug, Clone)]
pub enum RecipeError {
    /// The recipe content at the named path is malformed or incomplete.
    InvalidRecipe(String),
    /// The file or directory at the named path was unreadable.
    IO(String),
    /// The sidecar at the named path is malformed.
    InvalidMonitoring(String),
    /// A registered parser declines the specific content.
    UnsupportedRecipe,
}

impl View for RecipeError {
    type V = RecipeErrorView;

    open spec fn view(&self) -> RecipeErrorView {
        match self {
            RecipeError::InvalidRecipe(p) => (RecipeErrorView::InvalidRecipe { path: p@ }),
            RecipeError::IO(p) => (RecipeErrorView::IO { path: p@ }),
            RecipeError::InvalidMonitoring(p) => (RecipeErrorView::InvalidMonitoring { path: p@ }),
            RecipeError::UnsupportedRecipe => RecipeErrorView::UnsupportedRecipe,
        }
    }
}

impl DeepView for RecipeError {
    type V = RecipeErrorView;

    open spec fn deep_view(&self) -> RecipeErrorView {
        self.view()
    }
}

/// The mathematical value of a recipe parse outcome.
pub open spec fn parse_result_view(r: Result<Recipe, RecipeError>) -> Result<
    RecipeView,
    RecipeErrorView,
> {
    match r {
        Ok(rec) => Ok(rec.view()),
        Err(e) => Err(e.view()),
    }
}

/// What reading a recipe document yields: `Err` when the text is not valid
/// YAML or its top-level `name` or `version` field is missing or not a
/// string; otherwise the `(name, version)` pair.
pub uninterp spec fn name_version_doc(s: Seq<char>) -> Result<(Seq<char>, Seq<char>), ()>;

/// Relies on `serde_yaml::from_str` and `serde_yaml::Value`'s accessors
/// (`get`, `as_str`): reads the top-level `name` and `version` string fields
/// of a recipe document. The result depends on the text alone.
#[verifier::external_body]
fn read_name_version_doc(s: &str) -> (r: Result<(String, String), ()>)
    ensures
        r is Ok <==> name_version_doc(s@) is Ok,
        r matches Ok(p) ==> p.deep_view() == name_version_doc(s@)->Ok_0,
{
    let v: serde_yaml::Value = match serde_yaml::from_str(s) {
        Ok(v) => v,
        Err(_) => return Err(()),
    };
    match (v.get("name").and_then(|x| x.as_str()), v.get("version").and_then(|x| x.as_str())) {
        (Some(n), Some(ver)) => Ok((n.to_string(), ver.to_string())),
        _ => Err(()),
    }
}

/// The sidecar text a parser reads: `monitoring.yaml` is preferred,
/// `monitoring.yml` is the fallback.
pub open spec fn spec_chosen_sidecar(yaml: Option<Seq<char>>, yml: Option<Seq<char>>) -> Option<
    Seq<char>,
> {
    if yaml is Some {
        yaml
    } else {
        yml
    }
}

/// The monitoring record a sidecar text yields: a malformed sidecar degrades
/// to "no monitoring" rather than failing the recipe.
pub open spec fn spec_monitoring_of_sidecar(side: Option<Seq<char>>) -> Option<MonitoringView> {
    match side {
        None => None,
        Some(text) => match monitoring_doc(text) {
            Ok(d) => Some(monitoring_of_doc(d)),
            Err(_) => None,
        },
    }
}

/// What parsing one recipe file yields: the `(name, version)` pair of its
/// document, both non-empty, with the monitoring record of its first
/// available sidecar attached; `InvalidRecipe` naming the path otherwise.
pub open spec fn spec_parse_recipe(
    path: Seq<char>,
    contents: Seq<char>,
    sidecar_yaml: Option<Seq<char>>,
    sidecar_yml: Option<Seq<char>>,
) -> Result<RecipeView, RecipeErrorView> {
    match name_version_doc(contents) {
        Err(_) => Err(RecipeErrorView::InvalidRecipe { path }),
        Ok(nv) => if nv.0.len() == 0 || nv.1.len() == 0 {
            Err(RecipeErrorView::InvalidRecipe { path })
        } else {
            Ok(
                RecipeView {
                    name: nv.0,
                    version: nv.1,
                    monitoring: spec_monitoring_of_sidecar(
                        spec_chosen_sidecar(sidecar_yaml, sidecar_yml),
                    ),
                },
            )
        },
    }
}

/// The shared parse algorithm: extract name and version from the document
/// text, reject an empty name or version, then attach the monitoring record
/// of the first available sidecar, a malformed sidecar degrading to none.
///
/// `path` is the file's path, used only to name the file in errors;
/// `sidecar_yaml` and `sidecar_yml` hold the text of a co-located
/// `monitoring.yaml` and `monitoring.yml`, where those files exist.
pub fn parse_recipe_document(
    path: &str,
    contents: &str,
    sidecar_yaml: Option<&str>,
    sidecar_yml: Option<&str>,
) -> (r: Result<Recipe, RecipeError>)
    ensures
        parse_result_view(r) == spec_parse_recipe(
            path@,
            contents@,
            sidecar_yaml.deep_view(),
            sidecar_yml.deep_view(),
        ),
{
    match read_name_version_doc(contents) {
        Err(_) => Err(RecipeError::InvalidRecipe(path.to_owned())),
        Ok((name, version)) => {
            if name.as_str().is_empty() || version.as_str().is_empty() {
                Err(RecipeError::InvalidRecipe(path.to_owned()))
            } else {
                let side: Option<&str> = match (sidecar_yaml, sidecar_yml) {
                    (Some(s), _) => Some(s),
                    (None, o) => o,
                };
                let monitoring: Option<Monitoring> = match side {
                    None => None,
                    Some(text) => match Monitoring::from_str(text) {
                        Ok(m) => Some(m),
                        Err(_) => None,
                    },
                };
                let rec = Recipe { name, version, monitoring };
                proof {
                    assert(parse_result_view(Ok(rec)) =~~= spec_parse_recipe(
                        path@,
                        contents@,
                        sidecar_yaml.deep_view(),
                        sidecar_yml.deep_view(),
                    ));
                }
                Ok(rec)
            }
        },
    }
}

/// One recipe format family: parses one file's text into a [`Recipe`].
///
/// Parsers are stateless; a fresh instance is made per invocation.
pub trait RecipeParser {
    /// Parses a recipe file's text, attaching sidecar monitoring data.
    fn parse(
        &self,
        path: &str,
        contents: &str,
        sidecar_yaml: Option<&str>,
        sidecar_yml: Option<&str>,
    ) -> (r: Result<Recipe, RecipeError>)
        ensures
            parse_result_view(r) == spec_parse_recipe(
                path@,
                contents@,
                sidecar_yaml.deep_view(),
                sidecar_yml.deep_view(),
            ),
    ;
}

/// Parser for stone recipe files (`stone.yaml`).
pub struct StoneParser {}

impl RecipeParser for StoneParser {
    fn parse(
        &self,
        path: &str,
        contents: &str,
        sidecar_yaml: Option<&str>,
        sidecar_yml: Option<&str>,
    ) -> (r: Result<Recipe, RecipeError>) {
        parse_recipe_document(path, contents, sidecar_yaml, sidecar_yml)
    }
}

/// Parser for YPKG package descriptions (`package.yml`).
pub struct YpkgParser {}

impl RecipeParser for YpkgParser {
    fn parse(
        &self,
        path: &str,
        contents: &str,
        sidecar_yaml: Option<&str>,
        sidecar_yml: Option<&str>,
    ) -> (r: Result<Recipe, RecipeError>) {
        parse_recipe_document(path, contents, sidecar_yaml, sidecar_yml)
    }
}

/// Which registered parser implementation to run.
#[derive(Debug, Clone, Copy, PartialEq, Eq, Structural)]
pub enum ParserKind {
    Stone,
    Ypkg,
}

/// Runs the parser implementation named by `kind` on one file's text.
pub fn parse_with(
    kind: ParserKind,
    path: &str,
    contents: &str,
    sidecar_yaml: Option<&str>,
    sidecar_yml: Option<&str>,
) -> (r: Result<Recipe, RecipeError>)
    ensures
        parse_result_view(r) == spec_parse_recipe(
            path@,
            contents@,
            sidecar_yaml.deep_view(),
            sidecar_yml.deep_view(),
        ),
{
    match kind {
        ParserKind::Stone => {
            let p = StoneParser {};
            p.parse(path, contents, sidecar_yaml, sidecar_yml)
        },
        ParserKind::Ypkg => {
            let p = YpkgParser {};
            p.parse(path, contents, sidecar_yaml, sidecar_yml)
        },
    }
}

/// A recipe serialized back to its document schema: the canonical rendering
/// that [`name_version_doc`] reads name and version from.
pub open spec fn spec_recipe_document(name: Seq<char>, version: Seq<char>) -> Seq<char> {
    "name: \""@ + name + "\"\nversion: \""@ + version + "\"\n"@
}

/// Serializes a name and version back to the recipe document schema, as a
/// YAML text with quoted scalars. Faithful for names and versions free of
/// characters that need escaping inside a double-quoted YAML scalar.
pub fn render_recipe_document(name: &str, version: &str) -> (r: String)
    ensures
        r@ == spec_recipe_document(name@, version@),
{
    let mut out = String::new();
    out.append("name: \"");
    out.append(name);
    out.append("\"\nversion: \"");
    out.append(version);
    out.append("\"\n");
    proof {
        assert(out@ =~= spec_recipe_document(name@, version@));
    }
    out
}

} // verus!

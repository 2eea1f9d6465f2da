//! Monitoring sidecar documents.
//!
//! A recipe may carry a co-located monitoring document linking it to an
//! upstream version-tracking project: an optional `releases.id` integer
//! (project identifier, 0 meaning "not tracked") and an optional
//! `security.cpe` list of `{vendor, product}` platform identifier pairs.

use vstd::prelude::*;

verus! {

/// A platform identifier pair from the `security.cpe` list.
#[derive(Debug, Clone)]
pub struct CpeID {
    pub vendor: String,
    pub product: String,
}

impl View for CpeID {
    type V = (Seq<char>, Seq<char>);

    open spec fn view(&self) -> (Seq<char>, Seq<char>) {
        (self.vendor@, self.product@)
    }
}

impl DeepView for CpeID {
    type V = (Seq<char>, Seq<char>);

    open spec fn deep_view(&self) -> (Seq<char>, Seq<char>) {
        self.view()
    }
}

/// The mathematical value of a [`Monitoring`] record.
#[verifier::ext_equal]
pub ghost struct MonitoringView {
    pub project_id: i64,
    pub cpes: Seq<(Seq<char>, Seq<char>)>,
}

/// Monitoring metadata attached to a recipe.
#[derive(Debug, Clone)]
pub struct Monitoring {
    /// Upstream version-tracking project identifier; 0 means "not tracked".
    pub project_id: i64,
    /// Platform identifier pairs from the `security.cpe` section.
    pub cpes: Vec<CpeID>,
}

impl View for Monitoring {
    type V = MonitoringView;

    open spec fn view(&self) -> MonitoringView {
        MonitoringView { project_id: self.project_id, cpes: self.cpes.deep_view() }
    }
}

impl DeepView for Monitoring {
    type V = MonitoringView;

    open spec fn deep_view(&self) -> MonitoringView {
        self.view()
    }
}

/// Failure to parse a monitoring document.
#[derive(Debug, Clone, PartialEq, Eq, Structural)]
pub enum Error {
    /// The document is not syntactically valid YAML.
    ParseError,
}

/// What reading a monitoring document yields: `Err` when the text is not
/// syntactically valid YAML; otherwise the `releases.id` integer if that
/// section carries one, and the `security.cpe` list of `(vendor, product)`
/// pairs if that section carries one.
pub uninterp spec fn monitoring_doc(s: Seq<char>) -> Result<
    (Option<i64>, Option<Seq<(Seq<char>, Seq<char>)>>),
    (),
>;

/// Relies on `serde_yaml::from_str` and `serde_yaml::Value`'s accessors
/// (`get`, `as_i64`, `as_sequence`, `as_str`): reads the optional
/// `releases.id` integer and the optional `security.cpe` list of a monitoring
/// document. The result depends on the text alone.
#[verifier::external_body]
fn read_monitoring_doc(s: &str) -> (r: Result<(Option<i64>, Option<Vec<(String, String)>>), ()>)
    ensures
        r is Ok <==> monitoring_doc(s@) is Ok,
        r matches Ok(d) ==> ({
            let m = monitoring_doc(s@)->Ok_0;
            &&& d.0 == m.0
            &&& d.1.deep_view() == m.1
        }),
{
    let v: serde_yaml::Value = match serde_yaml::from_str(s) {
        Ok(v) => v,
        Err(_) => return Err(()),
    };
    let id = v.get("releases").and_then(|r| r.get("id")).and_then(|x| x.as_i64());
    let cpes = v.get("security").and_then(|c| c.get("cpe")).and_then(|c| c.as_sequence()).map(
        |items| items.iter().map(|e| (
            e.get("vendor").and_then(|x| x.as_str()).unwrap_or("").to_string(),
            e.get("product").and_then(|x| x.as_str()).unwrap_or("").to_string(),
        )).collect(),
    );
    Ok((id, cpes))
}

/// The monitoring record that a well-formed document denotes: a missing
/// `releases.id` defaults to 0 ("not tracked"), a missing `security.cpe`
/// list defaults to the empty list.
pub open spec fn monitoring_of_doc(
    d: (Option<i64>, Option<Seq<(Seq<char>, Seq<char>)>>),
) -> MonitoringView {
    MonitoringView {
        project_id: match d.0 {
            Some(i) => i,
            None => 0,
        },
        cpes: match d.1 {
            Some(c) => c,
            None => Seq::empty(),
        },
    }
}

impl Monitoring {
    /// Parses a monitoring document. Succeeds on every syntactically valid
    /// YAML text, with missing sections defaulted; fails only on malformed
    /// input.
    pub fn from_str(s: &str) -> (r: Result<Monitoring, Error>)
        ensures
            r is Ok <==> monitoring_doc(s@) is Ok,
            r matches Ok(m) ==> m@ == monitoring_of_doc(monitoring_doc(s@)->Ok_0),
    {
        match read_monitoring_doc(s) {
            Err(_) => Err(Error::ParseError),
            Ok((id, cpes)) => {
                let ghost doc = monitoring_doc(s@)->Ok_0;
                let project_id = match id {
                    Some(i) => i,
                    None => 0,
                };
                let mut out: Vec<CpeID> = Vec::new();
                match cpes {
                    Some(pairs) => {
                        let ghost target = doc.1->Some_0;
                        proof {
                            assert(pairs.deep_view() == target);
                        }
                        let n = pairs.len();
                        let mut k: usize = 0;
                        while k < n
                            invariant
                                0 <= k <= n,
                                n == pairs@.len(),
                                pairs.deep_view() == target,
                                out.deep_view() =~= target.take(k as int),
                            decreases n - k,
                        {
                            let ghost prev = out@;
                            let ghost prev_dv = out.deep_view();
                            proof {
                                assert(prev_dv.len() == prev.len());
                                assert(prev.len() == k as int);
                            }
                            let vendor = pairs[k].0.clone();
                            let product = pairs[k].1.clone();
                            proof {
                                assert(pairs.deep_view()[k as int] == (vendor@, product@));
                            }
                            out.push(CpeID { vendor, product });
                            k += 1;
                            proof {
                                assert(out@.len() == prev.len() + 1);
                                assert(out.deep_view().len() == out@.len());
                                assert(out.deep_view().len() == k as int);
                                assert forall|i: int| 0 <= i < k as int implies out.deep_view()[i]
                                    == target[i] by {
                                    if i < k - 1 {
                                        assert(out@[i] == prev[i]);
                                        assert(prev_dv[i] == prev[i].deep_view());
                                        assert(prev_dv[i] == target[i]);
                                    } else {
                                        assert(out@[i].deep_view() == (vendor@, product@));
                                    }
                                }
                                assert(out.deep_view() =~= target.take(k as int));
                            }
                        }
                        proof {
                            assert(out.deep_view() =~~= target);
                        }
                    },
                    None => {
                        proof {
                            assert(out.deep_view() =~= Seq::<(Seq<char>, Seq<char>)>::empty());
                        }
                    },
                }
                let m = Monitoring { project_id, cpes: out };
                proof {
                    assert(m@ =~~= monitoring_of_doc(doc));
                }
                Ok(m)
            },
        }
    }
}

} // verus!

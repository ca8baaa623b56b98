//! The state of the installation.

use vstd::prelude::*;
use vstd::string::*;

use crate::json;
use crate::json::{str_or_null, Json, JsonView};
use crate::text;
use crate::text::trim;

verus! {

/// The given text, or, where it is empty, the configured one.
pub open spec fn given_or_configured(given: Option<Seq<char>>, configured: Option<Seq<char>>) -> Option<Seq<char>> {
    match given {
        Some(s) => if text::trim_of(s).len() > 0 {
            Some(s)
        } else {
            configured
        },
        None => configured,
    }
}

/// The given text, or, where it is empty, the configured one.
pub fn choose_setting(given: Option<String>, configured: Option<String>) -> (r: Option<String>)
    ensures
        text::opt_string(r) == given_or_configured(text::opt_string(given), text::opt_string(configured)),
{
    match given {
        Some(s) => if !trim(s.as_str()).is_empty() {
            Some(s)
        } else {
            configured
        },
        None => configured,
    }
}

/// How the request for the version of Node ended.
pub enum NodeCheck {
    Ran { success: bool, stdout: String, stderr: String },
    NotFound,
    Failed(String),
    TimedOut,
}

/// What is reported of Node: whether it works, its version, and what went wrong.
pub struct NodeReport {
    pub ok: bool,
    pub version: Option<String>,
    pub details: Option<String>,
}

/// What is reported of Node, as a mathematical value.
pub struct NodeReportView {
    pub ok: bool,
    pub version: Option<Seq<char>>,
    pub details: Option<Seq<char>>,
}

impl View for NodeReport {
    type V = NodeReportView;

    open spec fn view(&self) -> NodeReportView {
        NodeReportView {
            ok: self.ok,
            version: text::opt_string(self.version),
            details: text::opt_string(self.details),
        }
    }
}

/// What is reported of Node.
pub open spec fn node_report(check: NodeCheck) -> NodeReportView {
    match check {
        NodeCheck::Ran { success, stdout, stderr } => {
            let out = text::trim_of(stdout@);
            let err = text::trim_of(stderr@);
            if success {
                NodeReportView {
                    ok: out.len() > 0,
                    version: if out.len() > 0 {
                        Some(out)
                    } else {
                        None
                    },
                    details: None,
                }
            } else {
                NodeReportView {
                    ok: false,
                    version: None,
                    details: Some(
                        if err.len() > 0 {
                            err
                        } else if out.len() > 0 {
                            out
                        } else {
                            "Node failed to start."@
                        },
                    ),
                }
            }
        },
        NodeCheck::NotFound => NodeReportView {
            ok: false,
            version: None,
            details: Some("Node not found on PATH."@),
        },
        NodeCheck::Failed(error) => NodeReportView { ok: false, version: None, details: Some(error@) },
        NodeCheck::TimedOut => NodeReportView {
            ok: false,
            version: None,
            details: Some("Timed out while checking Node."@),
        },
    }
}

/// What is reported of Node.
pub fn report_node(check: NodeCheck) -> (r: NodeReport)
    ensures
        r@ == node_report(check),
{
    match check {
        NodeCheck::Ran { success, stdout, stderr } => {
            let out: &str = trim(stdout.as_str());
            let err: &str = trim(stderr.as_str());
            if success {
                if out.is_empty() {
                    NodeReport { ok: false, version: None, details: None }
                } else {
                    NodeReport { ok: true, version: Some(out.to_owned()), details: None }
                }
            } else {
                let details: &str = if !err.is_empty() {
                    err
                } else if !out.is_empty() {
                    out
                } else {
                    "Node failed to start."
                };
                NodeReport { ok: false, version: None, details: Some(details.to_owned()) }
            }
        },
        NodeCheck::NotFound => NodeReport {
            ok: false,
            version: None,
            details: Some("Node not found on PATH.".to_owned()),
        },
        NodeCheck::Failed(error) => NodeReport { ok: false, version: None, details: Some(error) },
        NodeCheck::TimedOut => NodeReport {
            ok: false,
            version: None,
            details: Some("Timed out while checking Node.".to_owned()),
        },
    }
}

/// The report on the installation.
pub open spec fn doctor_report(
    bin: Option<Seq<char>>,
    version: Option<Seq<char>>,
    app_server_ok: bool,
    path_env: Option<Seq<char>>,
    node: NodeReportView,
) -> JsonView {
    let details = if app_server_ok {
        None
    } else {
        Some("Failed to run `codex app-server --help`."@)
    };
    json::obj().and("ok"@, JsonView::Bool(version is Some && app_server_ok)).and(
        "codexBin"@,
        json::text_or_null(bin),
    ).and("version"@, json::text_or_null(version)).and("appServerOk"@, JsonView::Bool(app_server_ok)).and(
        "details"@,
        json::text_or_null(details),
    ).and("path"@, json::text_or_null(path_env)).and("nodeOk"@, JsonView::Bool(node.ok)).and(
        "nodeVersion"@,
        json::text_or_null(node.version),
    ).and("nodeDetails"@, json::text_or_null(node.details))
}

fn opt_str<'a>(o: &'a Option<String>) -> (r: Option<&'a str>)
    ensures
        text::opt_text(r) == text::opt_string(*o),
{
    match o {
        Some(s) => Some(s.as_str()),
        None => None,
    }
}

/// The report on the installation.
pub fn build_doctor_report(
    bin: &Option<String>,
    version: &Option<String>,
    app_server_ok: bool,
    path_env: &Option<String>,
    node: &NodeReport,
) -> (r: Json)
    ensures
        r@ == doctor_report(
            text::opt_string(*bin),
            text::opt_string(*version),
            app_server_ok,
            text::opt_string(*path_env),
            node@,
        ),
{
    let details: Option<&str> = if app_server_ok {
        None
    } else {
        Some("Failed to run `codex app-server --help`.")
    };
    Json::obj().and("ok", Json::Bool(version.is_some() && app_server_ok)).and(
        "codexBin",
        str_or_null(opt_str(bin)),
    ).and("version", str_or_null(opt_str(version))).and("appServerOk", Json::Bool(app_server_ok)).and(
        "details",
        str_or_null(details),
    ).and("path", str_or_null(opt_str(path_env))).and("nodeOk", Json::Bool(node.ok)).and(
        "nodeVersion",
        str_or_null(opt_str(&node.version)),
    ).and("nodeDetails", str_or_null(opt_str(&node.details)))
}

} // verus!

//! A single macOS action a routine can execute, optionally snapped to a
//! screen region after it opens.
use vstd::prelude::*;

use crate::layout::Region;
use crate::text::{chars_of, file_name, file_name_spec, string_of};

pub mod execute;
pub mod report;
pub mod runner;

verus! {

/// A single macOS action a routine can execute, optionally snapped to a
/// screen region after it opens: launching an app (optionally on a file or
/// folder), opening a URL, or opening a document with its default app.
/// `display` names the target display by UUID; `None` is the main display.
#[derive(Debug, PartialEq)]
pub enum Action {
    OpenApp { name: String, path: Option<String>, region: Option<Region>, display: Option<String> },
    OpenUrl { url: String, region: Option<Region>, display: Option<String> },
    OpenFile { path: String, region: Option<Region>, display: Option<String> },
}

/// The view of an optional owned string.
pub open spec fn opt_string_view(s: Option<String>) -> Option<Seq<char>> {
    match s {
        Some(v) => Some(v@),
        None => None,
    }
}

/// A copy of an optional string with the same contents.
pub fn clone_opt_string(s: &Option<String>) -> (r: Option<String>)
    ensures
        r == *s,
{
    match s {
        Some(v) => Some(v.clone()),
        None => None,
    }
}

impl Clone for Action {
    fn clone(&self) -> (r: Self)
        ensures
            r == *self,
    {
        match self {
            Action::OpenApp { name, path, region, display } => Action::OpenApp {
                name: name.clone(),
                path: clone_opt_string(path),
                region: *region,
                display: clone_opt_string(display),
            },
            Action::OpenUrl { url, region, display } => Action::OpenUrl {
                url: url.clone(),
                region: *region,
                display: clone_opt_string(display),
            },
            Action::OpenFile { path, region, display } => Action::OpenFile {
                path: path.clone(),
                region: *region,
                display: clone_opt_string(display),
            },
        }
    }
}

impl Action {
    /// The region the action's window snaps to, if any.
    pub open spec fn region_of(self) -> Option<Region> {
        match self {
            Action::OpenApp { region, .. } => region,
            Action::OpenUrl { region, .. } => region,
            Action::OpenFile { region, .. } => region,
        }
    }

    /// The display the action targets, as characters.
    pub open spec fn display_of(self) -> Option<Seq<char>> {
        match self {
            Action::OpenApp { display, .. } => opt_string_view(display),
            Action::OpenUrl { display, .. } => opt_string_view(display),
            Action::OpenFile { display, .. } => opt_string_view(display),
        }
    }

    /// The action's `display` field.
    pub open spec fn display_field(self) -> Option<String> {
        match self {
            Action::OpenApp { display, .. } => display,
            Action::OpenUrl { display, .. } => display,
            Action::OpenFile { display, .. } => display,
        }
    }

    /// The same action with its `display` field replaced.
    pub open spec fn with_display(self, d: Option<String>) -> Action {
        match self {
            Action::OpenApp { name, path, region, .. } => Action::OpenApp { name, path, region, display: d },
            Action::OpenUrl { url, region, .. } => Action::OpenUrl { url, region, display: d },
            Action::OpenFile { path, region, .. } => Action::OpenFile { path, region, display: d },
        }
    }

    /// The label shown for the action kind.
    pub open spec fn kind_label_spec(self) -> Seq<char> {
        match self {
            Action::OpenApp { .. } => "open-app"@,
            Action::OpenUrl { .. } => "open-url"@,
            Action::OpenFile { .. } => "open-file"@,
        }
    }

    /// The arguments handed to `open`.
    pub open spec fn args_spec(self) -> Seq<Seq<char>> {
        match self {
            Action::OpenApp { name, path: Some(p), .. } => seq!["-a"@, name@, p@],
            Action::OpenApp { name, path: None, .. } => seq!["-a"@, name@],
            Action::OpenUrl { url, .. } => seq![url@],
            Action::OpenFile { path, .. } => seq![path@],
        }
    }

    /// How the action is shown to the user: `open-app(Name)`,
    /// `open-app(Name: target)` when it opens a path (the path's last
    /// component, or the whole path when it has none), `open-url(url)` and
    /// `open-file(file name)`.
    pub open spec fn label_spec(self) -> Seq<char> {
        match self {
            Action::OpenApp { name, path: Some(p), .. } => "open-app("@ + name@ + ": "@
                + shown_name(p@) + ")"@,
            Action::OpenApp { name, path: None, .. } => "open-app("@ + name@ + ")"@,
            Action::OpenUrl { url, .. } => "open-url("@ + url@ + ")"@,
            Action::OpenFile { path, .. } => "open-file("@ + shown_name(path@) + ")"@,
        }
    }

    /// `open -a <name>`, with no path, region or display.
    pub fn open_app(name: &str) -> (r: Self)
        ensures
            r matches Action::OpenApp { name: n, path: None, region: None, display: None } && n@ == name@,
    {
        Action::OpenApp { name: name.to_owned(), path: None, region: None, display: None }
    }

    /// `open <url>`, with no region or display.
    pub fn open_url(url: &str) -> (r: Self)
        ensures
            r matches Action::OpenUrl { url: u, region: None, display: None } && u@ == url@,
    {
        Action::OpenUrl { url: url.to_owned(), region: None, display: None }
    }

    /// `open <path>`, with no region or display.
    pub fn open_file(path: &str) -> (r: Self)
        ensures
            r matches Action::OpenFile { path: p, region: None, display: None } && p@ == path@,
    {
        Action::OpenFile { path: path.to_owned(), region: None, display: None }
    }

    pub fn kind_label(&self) -> (r: &'static str)
        ensures
            r@ == self.kind_label_spec(),
    {
        match self {
            Action::OpenApp { .. } => "open-app",
            Action::OpenUrl { .. } => "open-url",
            Action::OpenFile { .. } => "open-file",
        }
    }

    pub fn region(&self) -> (r: Option<Region>)
        ensures
            r == self.region_of(),
    {
        match self {
            Action::OpenApp { region, .. } => *region,
            Action::OpenUrl { region, .. } => *region,
            Action::OpenFile { region, .. } => *region,
        }
    }

    pub fn display(&self) -> (r: Option<&str>)
        ensures
            crate::text::opt_view(r) == self.display_of(),
    {
        let d = match self {
            Action::OpenApp { display, .. } => display,
            Action::OpenUrl { display, .. } => display,
            Action::OpenFile { display, .. } => display,
        };
        match d {
            Some(s) => Some(s.as_str()),
            None => None,
        }
    }

    pub fn display_mut(&mut self) -> (r: &mut Option<String>)
        ensures
            *r == old(self).display_field(),
            *final(self) == old(self).with_display(*final(r)),
    {
        match self {
            Action::OpenApp { display, .. } => display,
            Action::OpenUrl { display, .. } => display,
            Action::OpenFile { display, .. } => display,
        }
    }

    /// The program every action runs through.
    pub fn program(&self) -> (r: &'static str)
        ensures
            r@ == "open"@,
    {
        "open"
    }

    pub fn args(&self) -> (r: Vec<&str>)
        ensures
            r@.len() == self.args_spec().len(),
            forall|i: int| 0 <= i < r@.len() ==> #[trigger] r@[i]@ == self.args_spec()[i],
    {
        match self {
            Action::OpenApp { name, path: Some(p), .. } => vec!["-a", name.as_str(), p.as_str()],
            Action::OpenApp { name, path: None, .. } => vec!["-a", name.as_str()],
            Action::OpenUrl { url, .. } => vec![url.as_str()],
            Action::OpenFile { path, .. } => vec![path.as_str()],
        }
    }

    /// The text shown for this action in logs and outcomes.
    pub fn label(&self) -> (r: String)
        ensures
            r@ == self.label_spec(),
    {
        let mut out = String::new();
        match self {
            Action::OpenApp { name, path: Some(p), .. } => {
                out.append("open-app(");
                out.append(name.as_str());
                out.append(": ");
                let shown = shown_name_of(p.as_str());
                out.append(shown.as_str());
                out.append(")");
            },
            Action::OpenApp { name, path: None, .. } => {
                out.append("open-app(");
                out.append(name.as_str());
                out.append(")");
            },
            Action::OpenUrl { url, .. } => {
                out.append("open-url(");
                out.append(url.as_str());
                out.append(")");
            },
            Action::OpenFile { path, .. } => {
                out.append("open-file(");
                let shown = shown_name_of(path.as_str());
                out.append(shown.as_str());
                out.append(")");
            },
        }
        out
    }
}

/// The last component of a path, or the whole path when it has none.
pub open spec fn shown_name(p: Seq<char>) -> Seq<char> {
    match file_name_spec(p) {
        Some(n) => n,
        None => p,
    }
}

/// The last component of `p`, or `p` itself when it has none.
pub fn shown_name_of(p: &str) -> (r: String)
    ensures
        r@ == shown_name(p@),
{
    let chars = chars_of(p);
    match file_name(&chars) {
        Some(n) => string_of(&n),
        None => p.to_owned(),
    }
}

} // verus!

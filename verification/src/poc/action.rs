//! Actions of the command-line prototype.
use vstd::prelude::*;

use crate::text::str_eq;

verus! {

/// One action the prototype can run: launch an app, open a URL, run an
/// AppleScript snippet, or run a Shortcuts shortcut.
#[derive(Debug, PartialEq)]
pub enum Action {
    OpenApp { name: String },
    OpenUrl { url: String },
    Osascript { script: String },
    Shortcut { name: String },
}

impl Clone for Action {
    fn clone(&self) -> (r: Self)
        ensures
            r == *self,
    {
        match self {
            Action::OpenApp { name } => Action::OpenApp { name: name.clone() },
            Action::OpenUrl { url } => Action::OpenUrl { url: url.clone() },
            Action::Osascript { script } => Action::Osascript { script: script.clone() },
            Action::Shortcut { name } => Action::Shortcut { name: name.clone() },
        }
    }
}

impl Action {
    /// The kind label of the action.
    pub open spec fn kind_label_spec(self) -> Seq<char> {
        match self {
            Action::OpenApp { .. } => "open-app"@,
            Action::OpenUrl { .. } => "open-url"@,
            Action::Osascript { .. } => "osascript"@,
            Action::Shortcut { .. } => "shortcut"@,
        }
    }

    /// The program that performs the action.
    pub open spec fn program_spec(self) -> Seq<char> {
        match self {
            Action::OpenApp { .. } => "open"@,
            Action::OpenUrl { .. } => "open"@,
            Action::Osascript { .. } => "osascript"@,
            Action::Shortcut { .. } => "shortcuts"@,
        }
    }

    /// The arguments handed to the program.
    pub open spec fn args_spec(self) -> Seq<Seq<char>> {
        match self {
            Action::OpenApp { name } => seq!["-a"@, name@],
            Action::OpenUrl { url } => seq![url@],
            Action::Osascript { script } => seq!["-e"@, script@],
            Action::Shortcut { name } => seq!["run"@, name@],
        }
    }

    /// How the action is shown: the script of an AppleScript action is
    /// never printed.
    pub open spec fn label_spec(self) -> Seq<char> {
        match self {
            Action::OpenApp { name } => "open-app("@ + name@ + ")"@,
            Action::OpenUrl { url } => "open-url("@ + url@ + ")"@,
            Action::Osascript { .. } => "osascript(...)"@,
            Action::Shortcut { name } => "shortcut("@ + name@ + ")"@,
        }
    }

    pub fn open_app(name: &str) -> (r: Self)
        ensures
            r matches Action::OpenApp { name: n } && n@ == name@,
    {
        Action::OpenApp { name: name.to_owned() }
    }

    pub fn open_url(url: &str) -> (r: Self)
        ensures
            r matches Action::OpenUrl { url: u } && u@ == url@,
    {
        Action::OpenUrl { url: url.to_owned() }
    }

    pub fn osascript(script: &str) -> (r: Self)
        ensures
            r matches Action::Osascript { script: s } && s@ == script@,
    {
        Action::Osascript { script: script.to_owned() }
    }

    pub fn shortcut(name: &str) -> (r: Self)
        ensures
            r matches Action::Shortcut { name: n } && n@ == name@,
    {
        Action::Shortcut { name: name.to_owned() }
    }

    pub fn kind_label(&self) -> (r: &'static str)
        ensures
            r@ == self.kind_label_spec(),
    {
        match self {
            Action::OpenApp { .. } => "open-app",
            Action::OpenUrl { .. } => "open-url",
            Action::Osascript { .. } => "osascript",
            Action::Shortcut { .. } => "shortcut",
        }
    }

    pub fn program(&self) -> (r: &'static str)
        ensures
            r@ == self.program_spec(),
    {
        match self {
            Action::OpenApp { .. } => "open",
            Action::OpenUrl { .. } => "open",
            Action::Osascript { .. } => "osascript",
            Action::Shortcut { .. } => "shortcuts",
        }
    }

    pub fn args(&self) -> (r: Vec<&str>)
        ensures
            r@.len() == self.args_spec().len(),
            forall|i: int| 0 <= i < r@.len() ==> #[trigger] r@[i]@ == self.args_spec()[i],
    {
        match self {
            Action::OpenApp { name } => vec!["-a", name.as_str()],
            Action::OpenUrl { url } => vec![url.as_str()],
            Action::Osascript { script } => vec!["-e", script.as_str()],
            Action::Shortcut { name } => vec!["run", name.as_str()],
        }
    }

    /// The action named by `kind` (`open-app`, `open-url`, `osascript` or
    /// `shortcut`) with `param` as its argument; `None` for any other kind.
    pub fn parse(kind: &str, param: &str) -> (r: Option<Self>)
        ensures
            kind@ == "open-app"@ ==> (r matches Some(Action::OpenApp { name }) && name@ == param@),
            kind@ == "open-url"@ ==> (r matches Some(Action::OpenUrl { url }) && url@ == param@),
            kind@ == "osascript"@ ==> (r matches Some(Action::Osascript { script }) && script@
                == param@),
            kind@ == "shortcut"@ ==> (r matches Some(Action::Shortcut { name }) && name@ == param@),
            r is None <==> (kind@ != "open-app"@ && kind@ != "open-url"@ && kind@ != "osascript"@
                && kind@ != "shortcut"@),
    {
        proof {
            reveal_strlit("open-app");
            reveal_strlit("open-url");
            reveal_strlit("osascript");
            reveal_strlit("shortcut");
            assert("open-app"@[5] != "open-url"@[5]);
            assert("open-app"@[0] != "shortcut"@[0]);
            assert("open-url"@[0] != "shortcut"@[0]);
            assert("open-app"@.len() != "osascript"@.len());
            assert("open-url"@.len() != "osascript"@.len());
            assert("shortcut"@.len() != "osascript"@.len());
        }
        if str_eq(kind, "open-app") {
            Some(Action::open_app(param))
        } else if str_eq(kind, "open-url") {
            Some(Action::open_url(param))
        } else if str_eq(kind, "osascript") {
            Some(Action::osascript(param))
        } else if str_eq(kind, "shortcut") {
            Some(Action::shortcut(param))
        } else {
            None
        }
    }

    /// The text shown for this action.
    pub fn label(&self) -> (r: String)
        ensures
            r@ == self.label_spec(),
    {
        let mut out = String::new();
        match self {
            Action::OpenApp { name } => {
                out.append("open-app(");
                out.append(name.as_str());
                out.append(")");
            },
            Action::OpenUrl { url } => {
                out.append("open-url(");
                out.append(url.as_str());
                out.append(")");
            },
            Action::Osascript { .. } => {
                out.append("osascript(...)");
            },
            Action::Shortcut { name } => {
                out.append("shortcut(");
                out.append(name.as_str());
                out.append(")");
            },
        }
        out
    }
}

} // verus!

//! Decisions of the window-placement flows: which pid a command printed,
//! which app handles a document, which fresh browser window holds an opened
//! document, and when a placed window has settled.
use vstd::prelude::*;

use crate::layout::{LayoutError, Placement};
use crate::text::{
    chars_of, contains_seq, file_name, file_name_spec, file_stem, file_stem_spec, first_line,
    first_line_chars, occurs_in, parse_i32, parse_i32_spec, string_of, strip_suffix,
    strip_suffix_spec, trim, trim_chars,
};

verus! {

/// The text `String::from_utf8_lossy` decodes from `bytes`: UTF-8, with
/// each invalid sequence replaced by U+FFFD.
pub uninterp spec fn utf8_lossy(bytes: Seq<u8>) -> Seq<char>;

/// `String::from_utf8_lossy(bytes)`, owned. Trusted: the result is the
/// lossy UTF-8 decoding of exactly these bytes, named `utf8_lossy`; how
/// that decoding works is not restated.
#[verifier::external_body]
fn decode_lossy(bytes: &[u8]) -> (s: String)
    ensures
        s@ == utf8_lossy(bytes@),
{
    String::from_utf8_lossy(bytes).into_owned()
}

/// The lower-case form `str::to_lowercase` gives of `s`.
pub uninterp spec fn lowercase(s: Seq<char>) -> Seq<char>;

/// `str::to_lowercase`. Trusted: the result is the Unicode lower-case
/// mapping of exactly this text, named `lowercase`; the mapping itself is
/// not restated.
#[verifier::external_body]
fn to_lower(s: &str) -> (r: String)
    ensures
        r@ == lowercase(s@),
{
    s.to_lowercase()
}

/// The pid a command printed: the first line of its output, decoded
/// lossily and trimmed, read as an `i32`.
pub open spec fn first_pid_spec(stdout: Seq<u8>) -> Option<i32> {
    match first_line(utf8_lossy(stdout)) {
        Some(line) => parse_i32_spec(trim(line)),
        None => None,
    }
}

/// Parse the pid on the first line of a command's output.
pub fn first_pid(stdout: &[u8]) -> (r: Option<i32>)
    ensures
        r == first_pid_spec(stdout@),
{
    let text = decode_lossy(stdout);
    let chars = chars_of(text.as_str());
    match first_line_chars(&chars) {
        Some(line) => parse_i32(&trim_chars(&line)),
        None => None,
    }
}

/// Whether window placement may proceed: the process is trusted for
/// Accessibility control and a harmless control request went through.
pub fn is_trusted(process_trusted: bool, control_probe_ok: bool) -> (r: bool)
    ensures
        r == (process_trusted && control_probe_ok),
{
    process_trusted && control_probe_ok
}

/// The app name of an application bundle path: its last component without
/// the `.app` suffix; none when the path has no last component or it does
/// not end in `.app`.
pub open spec fn bundle_app_name(app_path: Seq<char>) -> Option<Seq<char>> {
    match file_name_spec(app_path) {
        Some(n) => strip_suffix_spec(n, ".app"@),
        None => None,
    }
}

/// The app that opens a document, by bundle name, given the path of the
/// application bundle that LaunchServices picked for it. Public so the
/// restack pass can order placed documents by their viewer.
pub fn file_handler_app(app_path: &str) -> (r: Option<String>)
    ensures
        match r {
            Some(s) => bundle_app_name(app_path@) == Some(s@),
            None => bundle_app_name(app_path@) is None,
        },
{
    let p = chars_of(app_path);
    let name = match file_name(&p) {
        Some(n) => n,
        None => return None,
    };
    let suffix = chars_of(".app");
    match strip_suffix(&name, &suffix) {
        Some(base) => Some(string_of(&base)),
        None => None,
    }
}

/// The lower-case stem of a document path, or empty when it has none: what
/// a browser window showing the document has in its title.
pub open spec fn document_stem_spec(path: Seq<char>) -> Seq<char> {
    match file_stem_spec(path) {
        Some(stem) => lowercase(stem),
        None => Seq::empty(),
    }
}

/// The lower-case stem of the document at `path`.
pub fn document_stem(path: &str) -> (r: String)
    ensures
        r@ == document_stem_spec(path@),
{
    let p = chars_of(path);
    match file_stem(&p) {
        Some(stem) => {
            let s = string_of(&stem);
            to_lower(s.as_str())
        },
        None => String::new(),
    }
}

/// The window `titles[i]` shows the document: its lower-cased title
/// contains the (non-empty) stem.
pub open spec fn title_matches(title: Option<String>, stem: Seq<char>) -> bool {
    match title {
        Some(t) => stem.len() > 0 && occurs_in(lowercase(t@), stem),
        None => false,
    }
}

/// `i` is the first fresh window whose title shows the document.
pub open spec fn first_title_match(titles: Seq<Option<String>>, stem: Seq<char>, i: int) -> bool {
    &&& 0 <= i < titles.len()
    &&& title_matches(titles[i], stem)
    &&& forall|j: int| 0 <= j < i ==> !title_matches(#[trigger] titles[j], stem)
}

/// Which fresh browser window holds the opened document: the first whose
/// title shows its stem; failing that, once the title has had a fair chance
/// to appear (`fallback_due`), the only fresh window if there is exactly
/// one; otherwise none yet.
pub open spec fn document_window_spec(titles: Seq<Option<String>>, stem: Seq<char>, fallback_due: bool) -> Option<int> {
    if exists|i: int| first_title_match(titles, stem, i) {
        Some(choose|i: int| first_title_match(titles, stem, i))
    } else if fallback_due && titles.len() == 1 {
        Some(0)
    } else {
        None
    }
}

/// Pick the fresh window that shows the document, given the fresh windows'
/// titles in order.
pub fn document_window(titles: &Vec<Option<String>>, stem: &str, fallback_due: bool) -> (r: Option<usize>)
    ensures
        match r {
            Some(i) => document_window_spec(titles@, stem@, fallback_due) == Some(i as int),
            None => document_window_spec(titles@, stem@, fallback_due) is None,
        },
{
    let stem_chars = chars_of(stem);
    let n = titles.len();
    let mut i: usize = 0;
    while i < n
        invariant
            n == titles@.len(),
            i <= n,
            stem_chars@ == stem@,
            forall|j: int| 0 <= j < i ==> !title_matches(#[trigger] titles@[j], stem@),
        decreases n - i,
    {
        let hit = match &titles[i] {
            Some(t) => {
                if stem_chars.len() == 0 {
                    false
                } else {
                    let lower = to_lower(t.as_str());
                    contains_seq(&chars_of(lower.as_str()), &stem_chars)
                }
            },
            None => false,
        };
        if hit {
            proof {
                assert(first_title_match(titles@, stem@, i as int));
                let c = choose|k: int| first_title_match(titles@, stem@, k);
                assert(first_title_match(titles@, stem@, c));
                if c < i {
                    assert(!title_matches(titles@[c], stem@));
                } else if c > i {
                    assert(title_matches(titles@[i as int], stem@));
                }
            }
            return Some(i);
        }
        assert(!title_matches(titles@[i as int], stem@));
        i += 1;
    }
    assert(!exists|k: int| first_title_match(titles@, stem@, k));
    if fallback_due && n == 1 {
        Some(0)
    } else {
        None
    }
}

/// Progress of placing a document window until it holds its frame: the
/// placement achieved so far and how many consecutive checks found the
/// window on target.
#[derive(Clone, Copy, Debug, PartialEq, Eq, Structural)]
pub struct StableTracker {
    pub last: Option<Placement>,
    pub stable: u32,
}

impl StableTracker {
    /// Nothing placed yet.
    pub fn new() -> (r: Self)
        ensures
            r == (StableTracker { last: None, stable: 0 }),
    {
        StableTracker { last: None, stable: 0 }
    }

    /// The window was found on target. Counts one more consecutive good
    /// check (an untouched window that is already in place counts as a
    /// full placement) and tells whether the frame has now held for two
    /// checks in a row.
    pub fn on_target(&mut self) -> (settled: bool)
        requires
            old(self).stable < u32::MAX,
        ensures
            final(self).last == (if old(self).last is None {
                Some(Placement::Full)
            } else {
                old(self).last
            }),
            final(self).stable == old(self).stable + 1,
            settled == (final(self).stable >= 2),
    {
        if self.last.is_none() {
            self.last = Some(Placement::Full);
        }
        self.stable = self.stable + 1;
        self.stable >= 2
    }

    /// The window had drifted and the frame was applied again: the streak
    /// restarts, and a successful apply becomes the latest placement.
    pub fn on_drift(&mut self, applied: Option<Placement>)
        ensures
            final(self).stable == 0,
            final(self).last == (if applied is Some {
                applied
            } else {
                old(self).last
            }),
    {
        self.stable = 0;
        if applied.is_some() {
            self.last = applied;
        }
    }

    /// The verdict when polling ends: the latest placement, or a timeout
    /// for the window labelled `label` when the frame was never applied.
    pub fn finish(self, label: &str) -> (r: Result<Placement, LayoutError>)
        ensures
            match self.last {
                Some(p) => r == Ok::<Placement, LayoutError>(p),
                None => r matches Err(LayoutError::WindowTimeout(l)) && l@ == label@,
            },
    {
        match self.last {
            Some(p) => Ok(p),
            None => Err(LayoutError::WindowTimeout(label.to_owned())),
        }
    }
}

} // verus!

//! Screen regions, display targets and the window-placement vocabulary
//! shared by the routine runner and the placer.
use vstd::prelude::*;

use crate::text::{chars_of, i32_text, parse_u32, parse_u32_spec, signed_decimal, str_eq};

pub mod placer;
pub mod probe;

verus! {

/// Screen regions an action's window can be snapped to: halves (2-split),
/// thirds (3-split), quadrants (4-split), or the full screen.
#[derive(Clone, Copy, Debug, PartialEq, Eq, Structural)]
pub enum Region {
    Full,
    /// Move to the display without resizing (window keeps its own size).
    Centered,
    LeftHalf,
    RightHalf,
    LeftThird,
    CenterThird,
    RightThird,
    TopLeft,
    TopRight,
    BottomLeft,
    BottomRight,
}

/// How much of the requested frame a window actually accepted.
#[derive(Clone, Copy, Debug, PartialEq, Eq, Structural)]
pub enum Placement {
    Full,
    /// Window moved but refused the resize (fixed-size windows such as
    /// Calculator). Position-only is still useful, so this is not an error.
    MovedOnly,
}

/// A failed Accessibility call.
#[derive(Debug)]
pub enum AxError {
    Call { call: &'static str, code: i32 },
    UnexpectedType(&'static str),
}

/// `std::io::Error`, carried through as the cause of a failed spawn.
#[verifier::external_type_specification]
#[verifier::external_body]
pub struct ExIoError(std::io::Error);

/// Why a window could not be placed.
#[derive(Debug)]
pub enum LayoutError {
    NotTrusted,
    AppNotFound(String),
    WindowTimeout(String),
    Spawn { command: &'static str, source: std::io::Error },
    Ax(AxError),
}

/// How moving and resizing a window to a frame came out, from its three
/// Accessibility calls: move, resize, move again (some apps re-clamp their
/// origin while resizing). A failed move is the error; a refused resize
/// still leaves a moved window (`MovedOnly`, not an error).
pub fn frame_placement(
    first_move: Result<(), AxError>,
    resized: bool,
    second_move: Result<(), AxError>,
) -> (r: Result<Placement, AxError>)
    ensures
        match first_move {
            Err(e) => r == Err::<Placement, AxError>(e),
            Ok(_) => match second_move {
                Err(e) => r == Err::<Placement, AxError>(e),
                Ok(_) => r == Ok::<Placement, AxError>(
                    if resized {
                        Placement::Full
                    } else {
                        Placement::MovedOnly
                    },
                ),
            },
        },
{
    match first_move {
        Err(e) => Err(e),
        Ok(_) => match second_move {
            Err(e) => Err(e),
            Ok(_) => Ok(
                if resized {
                    Placement::Full
                } else {
                    Placement::MovedOnly
                },
            ),
        },
    }
}

/// One connected display: its numeric CoreGraphics id and, when the system
/// reports one, its stable UUID string.
pub struct ActiveDisplay {
    pub id: u32,
    pub uuid: Option<String>,
}

/// Where an action's display spec points right now.
#[derive(Clone, Copy, Debug, PartialEq, Eq, Structural)]
pub enum DisplayTarget {
    Main,
    Id(u32),
    /// The referenced display is not connected (or the spec is a legacy
    /// id that no longer resolves) — the placement must be skipped, never
    /// silently retargeted.
    Missing,
}

/// The UUID of a display, as characters.
pub open spec fn uuid_view(d: ActiveDisplay) -> Option<Seq<char>> {
    match d.uuid {
        Some(u) => Some(u@),
        None => None,
    }
}

/// Display `i` is the first whose UUID equals `spec`.
pub open spec fn first_uuid_match(displays: Seq<ActiveDisplay>, wanted: Seq<char>, i: int) -> bool {
    &&& 0 <= i < displays.len()
    &&& uuid_view(displays[i]) == Some(wanted)
    &&& forall|j: int| 0 <= j < i ==> uuid_view(#[trigger] displays[j]) != Some(wanted)
}

/// Where a display spec points, given the connected displays in the
/// system's order: no spec means the main display; a spec naming the UUID
/// of a connected display means that display; otherwise a legacy numeric
/// id that is connected means that id; anything else is missing.
pub open spec fn resolve_display_spec(wanted: Option<Seq<char>>, displays: Seq<ActiveDisplay>) -> DisplayTarget {
    match wanted {
        None => DisplayTarget::Main,
        Some(s) => if exists|i: int| first_uuid_match(displays, s, i) {
            DisplayTarget::Id(displays[choose|i: int| first_uuid_match(displays, s, i)].id)
        } else if parse_u32_spec(s) is Some && exists|i: int|
            0 <= i < displays.len() && #[trigger] displays[i].id == parse_u32_spec(s)->0 {
            DisplayTarget::Id(parse_u32_spec(s)->0)
        } else {
            DisplayTarget::Missing
        },
    }
}

/// Resolve an action's display spec against the connected displays.
pub fn resolve_display(wanted: Option<&str>, displays: &Vec<ActiveDisplay>) -> (r: DisplayTarget)
    ensures
        r == resolve_display_spec(crate::text::opt_view(wanted), displays@),
{
    let s = match wanted {
        None => return DisplayTarget::Main,
        Some(s) => s,
    };
    let n = displays.len();
    let mut i: usize = 0;
    while i < n
        invariant
            n == displays@.len(),
            i <= n,
            crate::text::opt_view(wanted) == Some(s@),
            forall|j: int| 0 <= j < i ==> uuid_view(#[trigger] displays@[j]) != Some(s@),
        decreases n - i,
    {
        let hit = match &displays[i].uuid {
            Some(u) => str_eq(u.as_str(), s),
            None => false,
        };
        if hit {
            proof {
                assert(uuid_view(displays@[i as int]) == Some(s@));
                assert(first_uuid_match(displays@, s@, i as int));
                let c = choose|k: int| first_uuid_match(displays@, s@, k);
                assert(first_uuid_match(displays@, s@, c));
                if c < i {
                    assert(uuid_view(displays@[c]) != Some(s@));
                } else if c > i {
                    assert(uuid_view(displays@[i as int]) != Some(s@));
                }
                assert(c == i);
                assert(exists|k: int| first_uuid_match(displays@, s@, k));
            }
            return DisplayTarget::Id(displays[i].id);
        }
        i += 1;
    }
    assert(!exists|k: int| first_uuid_match(displays@, s@, k));
    let num = match parse_u32(&chars_of(s)) {
        Some(num) => num,
        None => return DisplayTarget::Missing,
    };
    let mut k: usize = 0;
    while k < n
        invariant
            n == displays@.len(),
            k <= n,
            crate::text::opt_view(wanted) == Some(s@),
            parse_u32_spec(s@) == Some(num),
            !exists|q: int| first_uuid_match(displays@, s@, q),
            forall|j: int| 0 <= j < k ==> #[trigger] displays@[j].id != num,
        decreases n - k,
    {
        if displays[k].id == num {
            assert(displays@[k as int].id == num);
            return DisplayTarget::Id(num);
        }
        k += 1;
    }
    DisplayTarget::Missing
}


impl Region {
    /// The region's name as it is shown in placement reports.
    pub open spec fn name_spec(self) -> Seq<char> {
        match self {
            Region::Full => "Full"@,
            Region::Centered => "Centered"@,
            Region::LeftHalf => "LeftHalf"@,
            Region::RightHalf => "RightHalf"@,
            Region::LeftThird => "LeftThird"@,
            Region::CenterThird => "CenterThird"@,
            Region::RightThird => "RightThird"@,
            Region::TopLeft => "TopLeft"@,
            Region::TopRight => "TopRight"@,
            Region::BottomLeft => "BottomLeft"@,
            Region::BottomRight => "BottomRight"@,
        }
    }

    pub fn name(self) -> (r: &'static str)
        ensures
            r@ == self.name_spec(),
    {
        match self {
            Region::Full => "Full",
            Region::Centered => "Centered",
            Region::LeftHalf => "LeftHalf",
            Region::RightHalf => "RightHalf",
            Region::LeftThird => "LeftThird",
            Region::CenterThird => "CenterThird",
            Region::RightThird => "RightThird",
            Region::TopLeft => "TopLeft",
            Region::TopRight => "TopRight",
            Region::BottomLeft => "BottomLeft",
            Region::BottomRight => "BottomRight",
        }
    }
}

impl Placement {
    /// The placement's name as it is shown in placement reports.
    pub open spec fn name_spec(self) -> Seq<char> {
        match self {
            Placement::Full => "Full"@,
            Placement::MovedOnly => "MovedOnly"@,
        }
    }

    pub fn name(self) -> (r: &'static str)
        ensures
            r@ == self.name_spec(),
    {
        match self {
            Placement::Full => "Full",
            Placement::MovedOnly => "MovedOnly",
        }
    }
}

/// The text `format!("{:?}", s)` gives for a string: quoted, with quotes,
/// backslashes and control characters escaped.
pub uninterp spec fn debug_quoted(s: Seq<char>) -> Seq<char>;

/// `format!("{:?}", s)`. Trusted: the result is the `Debug` rendering of
/// exactly this text, named `debug_quoted`; the escaping rules are not
/// restated.
#[verifier::external_body]
pub(crate) fn debug_quote(s: &str) -> (r: String)
    ensures
        r@ == debug_quoted(s@),
{
    format!("{:?}", s)
}

/// `format!("{}", e)` for an I/O error. The operating system supplies the
/// message, so nothing is claimed of it.
#[verifier::external_body]
pub(crate) fn io_error_text(e: &std::io::Error) -> String {
    format!("{}", e)
}

impl AxError {
    /// The error's message.
    pub open spec fn message_spec(self) -> Seq<char> {
        match self {
            AxError::Call { call, code } => "accessibility call "@ + call@ + " failed with AXError "@
                + signed_decimal(code as int),
            AxError::UnexpectedType(a) => "attribute "@ + a@ + " has an unexpected type"@,
        }
    }

    /// The error's message.
    pub fn message(&self) -> (r: String)
        ensures
            r@ == self.message_spec(),
    {
        let mut s = String::new();
        match self {
            AxError::Call { call, code } => {
                s.append("accessibility call ");
                s.append(call);
                s.append(" failed with AXError ");
                s.append(i32_text(*code).as_str());
            },
            AxError::UnexpectedType(a) => {
                s.append("attribute ");
                s.append(a);
                s.append(" has an unexpected type");
            },
        }
        s
    }
}

impl LayoutError {
    /// The error's message, for every error but a failed spawn (whose cause
    /// is worded by the operating system).
    pub open spec fn message_spec(self) -> Option<Seq<char>> {
        match self {
            LayoutError::NotTrusted => Some("accessibility permission is not granted"@),
            LayoutError::AppNotFound(app) => Some(
                "no running process found for app "@ + debug_quoted(app@),
            ),
            LayoutError::WindowTimeout(label) => Some("timed out waiting for a window of "@ + label@),
            LayoutError::Spawn { .. } => None,
            LayoutError::Ax(e) => Some(e.message_spec()),
        }
    }

    /// The error's message. A failed spawn reads `failed to run <command>:
    /// <cause>`.
    pub fn message(&self) -> (r: String)
        ensures
            match self.message_spec() {
                Some(m) => r@ == m,
                None => self matches LayoutError::Spawn { command, .. } && ("failed to run "@ + command@
                    + ": "@).is_prefix_of(r@),
            },
    {
        let mut s = String::new();
        match self {
            LayoutError::NotTrusted => {
                s.append("accessibility permission is not granted");
            },
            LayoutError::AppNotFound(app) => {
                s.append("no running process found for app ");
                s.append(debug_quote(app.as_str()).as_str());
            },
            LayoutError::WindowTimeout(label) => {
                s.append("timed out waiting for a window of ");
                s.append(label.as_str());
            },
            LayoutError::Spawn { command, source } => {
                s.append("failed to run ");
                s.append(command);
                s.append(": ");
                let ghost head = s@;
                s.append(io_error_text(source).as_str());
                assert(s@.subrange(0, head.len() as int) =~= head);
                assert(head.is_prefix_of(s@));
            },
            LayoutError::Ax(e) => {
                s.append(e.message().as_str());
            },
        }
        s
    }
}

} // verus!

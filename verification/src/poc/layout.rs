//! Argument handling of the window-layout tool.
use vstd::prelude::*;

use crate::layout::{debug_quote, debug_quoted, Region};
use crate::text::str_eq;

verus! {

/// The region labels the tool accepts, as listed in its usage text.
pub const REGION_LABELS: &'static str =
    "full | left | right | left-third | center-third | right-third | top-left | top-right | bottom-left | bottom-right";

/// The region a command-line label names.
pub open spec fn region_of_label(label: Seq<char>) -> Option<Region> {
    if label == "full"@ {
        Some(Region::Full)
    } else if label == "left"@ {
        Some(Region::LeftHalf)
    } else if label == "right"@ {
        Some(Region::RightHalf)
    } else if label == "left-third"@ {
        Some(Region::LeftThird)
    } else if label == "center-third"@ {
        Some(Region::CenterThird)
    } else if label == "right-third"@ {
        Some(Region::RightThird)
    } else if label == "top-left"@ {
        Some(Region::TopLeft)
    } else if label == "top-right"@ {
        Some(Region::TopRight)
    } else if label == "bottom-left"@ {
        Some(Region::BottomLeft)
    } else if label == "bottom-right"@ {
        Some(Region::BottomRight)
    } else {
        None
    }
}

/// Each accepted label names its own region: `full` the whole display,
/// `left` and `right` the two halves, the `-third` labels the three
/// columns and the corner labels the four quarters. Distinct labels never
/// name the same region, and no label names the centred placement.
pub proof fn each_label_names_its_region(label: Seq<char>, other: Seq<char>)
    ensures
        region_of_label("full"@) == Some(Region::Full),
        region_of_label("left"@) == Some(Region::LeftHalf),
        region_of_label("right"@) == Some(Region::RightHalf),
        region_of_label("left-third"@) == Some(Region::LeftThird),
        region_of_label("center-third"@) == Some(Region::CenterThird),
        region_of_label("right-third"@) == Some(Region::RightThird),
        region_of_label("top-left"@) == Some(Region::TopLeft),
        region_of_label("top-right"@) == Some(Region::TopRight),
        region_of_label("bottom-left"@) == Some(Region::BottomLeft),
        region_of_label("bottom-right"@) == Some(Region::BottomRight),
        region_of_label(label) is Some && region_of_label(label) == region_of_label(other) ==> label
            == other,
        region_of_label(label) != Some(Region::Centered),
{
    reveal_strlit("full");
    reveal_strlit("left");
    reveal_strlit("right");
    reveal_strlit("left-third");
    reveal_strlit("center-third");
    reveal_strlit("right-third");
    reveal_strlit("top-left");
    reveal_strlit("top-right");
    reveal_strlit("bottom-left");
    reveal_strlit("bottom-right");
    assert("full"@.len() == 4 && "left"@.len() == 4 && "right"@.len() == 5);
    assert("left-third"@.len() == 10 && "center-third"@.len() == 12 && "right-third"@.len() == 11);
    assert("top-left"@.len() == 8 && "top-right"@.len() == 9);
    assert("bottom-left"@.len() == 11 && "bottom-right"@.len() == 12);
    assert("full"@[0] != "left"@[0]);
    assert("right-third"@[0] != "bottom-left"@[0]);
    assert("center-third"@[0] != "bottom-right"@[0]);
}

impl Region {
    /// The region named by a command-line label (`full`, `left`, `right`,
    /// `left-third`, `center-third`, `right-third`, `top-left`, `top-right`,
    /// `bottom-left`, `bottom-right`).
    pub fn parse(label: &str) -> (r: Option<Region>)
        ensures
            r == region_of_label(label@),
    {
        if str_eq(label, "full") {
            Some(Region::Full)
        } else if str_eq(label, "left") {
            Some(Region::LeftHalf)
        } else if str_eq(label, "right") {
            Some(Region::RightHalf)
        } else if str_eq(label, "left-third") {
            Some(Region::LeftThird)
        } else if str_eq(label, "center-third") {
            Some(Region::CenterThird)
        } else if str_eq(label, "right-third") {
            Some(Region::RightThird)
        } else if str_eq(label, "top-left") {
            Some(Region::TopLeft)
        } else if str_eq(label, "top-right") {
            Some(Region::TopRight)
        } else if str_eq(label, "bottom-left") {
            Some(Region::BottomLeft)
        } else if str_eq(label, "bottom-right") {
            Some(Region::BottomRight)
        } else {
            None
        }
    }
}

/// The region a label names, or the message that lists the accepted
/// labels.
pub fn parse_region(label: &str) -> (r: Result<Region, String>)
    ensures
        match region_of_label(label@) {
            Some(region) => r == Ok::<Region, String>(region),
            None => r matches Err(m) && m@ == "unknown region "@ + debug_quoted(label@)
                + "; expected one of: "@ + REGION_LABELS@,
        },
{
    match Region::parse(label) {
        Some(region) => Ok(region),
        None => {
            let mut m = String::new();
            m.append("unknown region ");
            m.append(debug_quote(label).as_str());
            m.append("; expected one of: ");
            m.append(REGION_LABELS);
            Err(m)
        },
    }
}

} // verus!

//! The styled text renderer: how a tab label or a list row looks when it is
//! selected, struck through, or plain.
use vstd::prelude::*;
use crate::terminal::{
    bg_reset_seq, bg_white_seq, bold_seq, crossed_out_seq, fg_black_seq, fg_reset_seq,
    no_crossed_out_seq, push_bold, push_crossed_out, push_no_crossed_out, push_outline_off,
    push_outline_on, push_reset, reset_seq,
};
use crate::text::{chars_of, push_all, same_text, string_of};

verus! {

/// The visual treatment of the highlighted item.
#[derive(Clone, Copy, Debug, PartialEq, Eq, Structural)]
pub enum Selection {
    Brackets,
    Tilde,
    Outline,
    Bold,
}

/// How one piece of text is to be drawn.
pub struct PrintStyle {
    /// The selection style, when the text is the selected item.
    pub selection: Option<Selection>,
    /// Whether the text between its wrapper characters is struck through.
    pub strikethrough: bool,
    /// What follows the text; a single space when absent.
    pub spacing: Option<String>,
}

/// The name under which a style is configured.
pub open spec fn selection_name(s: Selection) -> Seq<char> {
    match s {
        Selection::Brackets => "brackets"@,
        Selection::Tilde => "tilde"@,
        Selection::Outline => "outline"@,
        Selection::Bold => "bold"@,
    }
}

/// The style configured under `name`, if any.
pub open spec fn selection_named(name: Seq<char>) -> Option<Selection> {
    if name == "brackets"@ {
        Some(Selection::Brackets)
    } else if name == "tilde"@ {
        Some(Selection::Tilde)
    } else if name == "outline"@ {
        Some(Selection::Outline)
    } else if name == "bold"@ {
        Some(Selection::Bold)
    } else {
        None
    }
}

/// The characters that replace a selected text's leading and trailing wrapper.
pub open spec fn wrapper_chars(s: Selection) -> (char, char) {
    match s {
        Selection::Tilde => ('~', ' '),
        Selection::Brackets => ('[', ']'),
        _ => (' ', ' '),
    }
}

/// `s` with its first and last character replaced as `style` asks.
pub open spec fn selected_str(s: Seq<char>, style: Selection) -> Seq<char> {
    seq![wrapper_chars(style).0] + s.subrange(1, s.len() - 1) + seq![wrapper_chars(style).1]
}

/// `s` with everything between its first and last character struck through.
pub open spec fn struck(s: Seq<char>) -> Seq<char> {
    seq![s[0]] + crossed_out_seq() + s.subrange(1, s.len() - 1) + no_crossed_out_seq() + seq![
        s.last(),
    ]
}

pub open spec fn outlined(s: Seq<char>, spacing: Seq<char>) -> Seq<char> {
    bg_white_seq() + fg_black_seq() + s + bg_reset_seq() + fg_reset_seq() + spacing
}

pub open spec fn emboldened(s: Seq<char>, spacing: Seq<char>) -> Seq<char> {
    bold_seq() + s + reset_seq() + spacing
}

pub open spec fn spacing_of(spacing: Option<Seq<char>>) -> Seq<char> {
    match spacing {
        Some(sp) => sp,
        None => seq![' '],
    }
}

/// The full rendering of `s`: struck through if asked, then given the
/// selection treatment, then followed by the spacing.
pub open spec fn styled(
    s: Seq<char>,
    selection: Option<Selection>,
    strikethrough: bool,
    spacing: Seq<char>,
) -> Seq<char> {
    let t = if strikethrough {
        struck(s)
    } else {
        s
    };
    match selection {
        Some(Selection::Bold) => emboldened(t, spacing),
        Some(Selection::Outline) => outlined(t, spacing),
        Some(style) => selected_str(t, style) + spacing,
        None => t + spacing,
    }
}

pub open spec fn style_spacing(style: &PrintStyle) -> Seq<char> {
    spacing_of(
        match style.spacing {
            Some(sp) => Some(sp@),
            None => None,
        },
    )
}

fn spacing_text(spacing: Option<&str>) -> (r: String)
    ensures
        r@ == spacing_of(
            match spacing {
                Some(sp) => Some(sp@),
                None => None,
            },
        ),
{
    match spacing {
        Some(sp) => {
            let mut r = String::new();
            push_all(&mut r, sp);
            proof {
                assert(r@ =~= sp@);
            }
            r
        },
        None => {
            let mut r = String::new();
            r.push(' ');
            r
        },
    }
}

impl Selection {
    /// The name under which this style is configured.
    pub fn as_str(&self) -> (r: &'static str)
        ensures
            r@ == selection_name(*self),
    {
        match self {
            Selection::Brackets => "brackets",
            Selection::Tilde => "tilde",
            Selection::Outline => "outline",
            Selection::Bold => "bold",
        }
    }

    /// The style configured under `s`, if any.
    pub fn from_str(s: &str) -> (r: Option<Selection>)
        ensures
            r == selection_named(s@),
    {
        if same_text(s, "brackets") {
            Some(Selection::Brackets)
        } else if same_text(s, "tilde") {
            Some(Selection::Tilde)
        } else if same_text(s, "outline") {
            Some(Selection::Outline)
        } else if same_text(s, "bold") {
            Some(Selection::Bold)
        } else {
            None
        }
    }

    /// `string` with its leading and trailing wrapper replaced as `style` asks.
    pub fn get_selected_str(string: &str, style: &Self) -> (r: String)
        requires
            string@.len() >= 2,
        ensures
            r@ == selected_str(string@, *style),
    {
        let (start_char, end_char) = match style {
            Selection::Tilde => ('~', ' '),
            Selection::Brackets => ('[', ']'),
            Selection::Outline | Selection::Bold => (' ', ' '),
        };
        let cs = chars_of(string);
        let mut r = String::new();
        r.push(start_char);
        let rest = string_of(&cs, 1, cs.len() - 1);
        push_all(&mut r, rest.as_str());
        r.push(end_char);
        proof {
            assert(r@ =~= selected_str(string@, *style));
        }
        r
    }

    /// `string` in inverse colours, then the spacing.
    pub fn print_outline(string: &str, spacing: Option<&str>) -> (r: String)
        ensures
            r@ == outlined(
                string@,
                spacing_of(
                    match spacing {
                        Some(sp) => Some(sp@),
                        None => None,
                    },
                ),
            ),
    {
        let mut r = String::new();
        push_outline_on(&mut r);
        push_all(&mut r, string);
        push_outline_off(&mut r);
        let sp = spacing_text(spacing);
        push_all(&mut r, sp.as_str());
        proof {
            assert(r@ =~= outlined(string@, sp@));
        }
        r
    }

    /// `string` in bold, then the spacing.
    pub fn print_bold(string: &str, spacing: Option<&str>) -> (r: String)
        ensures
            r@ == emboldened(
                string@,
                spacing_of(
                    match spacing {
                        Some(sp) => Some(sp@),
                        None => None,
                    },
                ),
            ),
    {
        let mut r = String::new();
        push_bold(&mut r);
        push_all(&mut r, string);
        push_reset(&mut r);
        let sp = spacing_text(spacing);
        push_all(&mut r, sp.as_str());
        proof {
            assert(r@ =~= emboldened(string@, sp@));
        }
        r
    }

    /// `string` struck through as a whole, then the spacing.
    pub fn print_strikethrough(string: &str, spacing: Option<&str>) -> (r: String)
        ensures
            r@ == crossed_out_seq() + string@ + reset_seq() + spacing_of(
                match spacing {
                    Some(sp) => Some(sp@),
                    None => None,
                },
            ),
    {
        let mut r = String::new();
        push_crossed_out(&mut r);
        push_all(&mut r, string);
        push_reset(&mut r);
        let sp = spacing_text(spacing);
        push_all(&mut r, sp.as_str());
        proof {
            assert(r@ =~= crossed_out_seq() + string@ + reset_seq() + sp@);
        }
        r
    }

    /// The exact text that draws `string` in the given style.
    pub fn print_styled(string: &str, style: PrintStyle) -> (r: String)
        requires
            string@.len() >= 2,
        ensures
            r@ == styled(string@, style.selection, style.strikethrough, style_spacing(&style)),
    {
        let PrintStyle { selection, strikethrough, spacing } = style;
        let text = if strikethrough {
            let cs = chars_of(string);
            let last = cs.len() - 1;
            let mut t = String::new();
            t.push(cs[0]);
            push_crossed_out(&mut t);
            let rest = string_of(&cs, 1, last);
            push_all(&mut t, rest.as_str());
            push_no_crossed_out(&mut t);
            t.push(cs[last]);
            proof {
                assert(t@ =~= struck(string@));
            }
            t
        } else {
            let mut t = String::new();
            push_all(&mut t, string);
            proof {
                assert(t@ =~= string@);
            }
            t
        };
        let sp: Option<&str> = match &spacing {
            Some(s) => Some(s.as_str()),
            None => None,
        };
        match selection {
            Some(Selection::Bold) => Selection::print_bold(text.as_str(), sp),
            Some(Selection::Outline) => Selection::print_outline(text.as_str(), sp),
            Some(Selection::Brackets) => {
                let mut r = Selection::get_selected_str(text.as_str(), &Selection::Brackets);
                let s = spacing_text(sp);
                push_all(&mut r, s.as_str());
                r
            },
            Some(Selection::Tilde) => {
                let mut r = Selection::get_selected_str(text.as_str(), &Selection::Tilde);
                let s = spacing_text(sp);
                push_all(&mut r, s.as_str());
                r
            },
            None => {
                let mut r = text;
                let s = spacing_text(sp);
                push_all(&mut r, s.as_str());
                r
            },
        }
    }
}

} // verus!

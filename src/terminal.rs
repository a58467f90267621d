//! The control sequences written to the terminal, as text: the program's
//! output layer hands these strings to the terminal, so every byte that
//! reaches it is stated here.
use vstd::prelude::*;
use crate::text::{dec, push_all};

verus! {

/// A control sequence introducer followed by `tail`.
pub open spec fn csi(tail: Seq<char>) -> Seq<char> {
    seq!['\x1b', '['] + tail
}

pub open spec fn bold_seq() -> Seq<char> {
    csi(seq!['1', 'm'])
}

pub open spec fn reset_seq() -> Seq<char> {
    csi(seq!['m'])
}

pub open spec fn crossed_out_seq() -> Seq<char> {
    csi(seq!['9', 'm'])
}

pub open spec fn no_crossed_out_seq() -> Seq<char> {
    csi(seq!['2', '9', 'm'])
}

pub open spec fn bg_white_seq() -> Seq<char> {
    csi(seq!['4', '8', ';', '5', ';', '7', 'm'])
}

pub open spec fn fg_black_seq() -> Seq<char> {
    csi(seq!['3', '8', ';', '5', ';', '0', 'm'])
}

pub open spec fn bg_reset_seq() -> Seq<char> {
    csi(seq!['4', '9', 'm'])
}

pub open spec fn fg_reset_seq() -> Seq<char> {
    csi(seq!['3', '9', 'm'])
}

pub open spec fn clear_all_seq() -> Seq<char> {
    csi(seq!['2', 'J'])
}

pub open spec fn hide_cursor_seq() -> Seq<char> {
    csi(seq!['?', '2', '5', 'l'])
}

pub open spec fn show_cursor_seq() -> Seq<char> {
    csi(seq!['?', '2', '5', 'h'])
}

/// Moves the cursor to column `x`, row `y` (both counted from 1).
pub open spec fn goto_seq(x: u16, y: u16) -> Seq<char> {
    csi(dec(y as nat) + seq![';'] + dec(x as nat) + seq!['H'])
}

/// Relies on termion's `style::Bold`, displayed as `ESC [ 1 m`.
#[verifier::external_body]
fn bold() -> (r: String)
    ensures
        r@ == bold_seq(),
{
    termion::style::Bold.to_string()
}

/// Relies on termion's `style::Reset`, displayed as `ESC [ m`.
#[verifier::external_body]
fn reset() -> (r: String)
    ensures
        r@ == reset_seq(),
{
    termion::style::Reset.to_string()
}

/// Relies on termion's `style::CrossedOut`, displayed as `ESC [ 9 m`.
#[verifier::external_body]
fn crossed_out() -> (r: String)
    ensures
        r@ == crossed_out_seq(),
{
    termion::style::CrossedOut.to_string()
}

/// Relies on termion's `style::NoCrossedOut`, displayed as `ESC [ 2 9 m`.
#[verifier::external_body]
fn no_crossed_out() -> (r: String)
    ensures
        r@ == no_crossed_out_seq(),
{
    termion::style::NoCrossedOut.to_string()
}

/// Relies on termion's `color::Bg(color::White)`, displayed as `ESC [ 48;5;7 m`.
#[verifier::external_body]
fn bg_white() -> (r: String)
    ensures
        r@ == bg_white_seq(),
{
    termion::color::Bg(termion::color::White).to_string()
}

/// Relies on termion's `color::Fg(color::Black)`, displayed as `ESC [ 38;5;0 m`.
#[verifier::external_body]
fn fg_black() -> (r: String)
    ensures
        r@ == fg_black_seq(),
{
    termion::color::Fg(termion::color::Black).to_string()
}

/// Relies on termion's `color::Bg(color::Reset)`, displayed as `ESC [ 49 m`.
#[verifier::external_body]
fn bg_reset() -> (r: String)
    ensures
        r@ == bg_reset_seq(),
{
    termion::color::Bg(termion::color::Reset).to_string()
}

/// Relies on termion's `color::Fg(color::Reset)`, displayed as `ESC [ 39 m`.
#[verifier::external_body]
fn fg_reset() -> (r: String)
    ensures
        r@ == fg_reset_seq(),
{
    termion::color::Fg(termion::color::Reset).to_string()
}

/// Relies on termion's `clear::All`, displayed as `ESC [ 2 J`.
#[verifier::external_body]
fn clear_all() -> (r: String)
    ensures
        r@ == clear_all_seq(),
{
    termion::clear::All.to_string()
}

/// Relies on termion's `cursor::Hide`, displayed as `ESC [ ? 25 l`.
#[verifier::external_body]
fn cursor_hide() -> (r: String)
    ensures
        r@ == hide_cursor_seq(),
{
    termion::cursor::Hide.to_string()
}

/// Relies on termion's `cursor::Show`, displayed as `ESC [ ? 25 h`.
#[verifier::external_body]
fn cursor_show() -> (r: String)
    ensures
        r@ == show_cursor_seq(),
{
    termion::cursor::Show.to_string()
}

/// Relies on termion's `cursor::Goto(x, y)`, displayed as `ESC [ y ; x H` with
/// both numbers in decimal; it asserts in debug builds that they are not both 0.
#[verifier::external_body]
fn goto(x: u16, y: u16) -> (r: String)
    requires
        !(x == 0 && y == 0),
    ensures
        r@ == goto_seq(x, y),
{
    termion::cursor::Goto(x, y).to_string()
}

/// Plain output: items, and the frame around a screen of them.
pub struct Print;

/// Cursor visibility and placement.
pub struct Cursor;

/// The screen as a whole.
pub struct Screen;

impl Print {
    /// An item followed by its spacing.
    pub fn item(string: &str, spacing: &str) -> (r: String)
        ensures
            r@ == string@ + spacing@,
    {
        let mut r = String::new();
        push_all(&mut r, string);
        push_all(&mut r, spacing);
        proof {
            assert(r@ =~= string@ + spacing@);
        }
        r
    }

    /// Clears the screen and puts the cursor at the top-left corner.
    pub fn prepare() -> (r: String)
        ensures
            r@ == clear_all_seq() + goto_seq(1, 1),
    {
        let mut r = clear_all();
        let g = goto(1, 1);
        push_all(&mut r, g.as_str());
        r
    }

    /// Ends the current line.
    pub fn finsih() -> (r: String)
        ensures
            r@ == seq!['\n'],
    {
        let mut r = String::new();
        r.push('\n');
        r
    }
}

impl Cursor {
    /// Makes the cursor invisible.
    pub fn hide_cursor() -> (r: String)
        ensures
            r@ == hide_cursor_seq(),
    {
        cursor_hide()
    }

    /// Makes the cursor visible.
    pub fn show() -> (r: String)
        ensures
            r@ == show_cursor_seq(),
    {
        cursor_show()
    }

    /// Moves the cursor to column `x`, row `y`, then ends the line.
    pub fn place(x: u16, y: u16) -> (r: String)
        requires
            !(x == 0 && y == 0),
        ensures
            r@ == goto_seq(x, y).push('\n'),
    {
        let mut r = goto(x, y);
        r.push('\n');
        r
    }

    /// Moves the cursor to the top-left corner.
    pub fn reset() -> (r: String)
        ensures
            r@ == goto_seq(1, 1),
    {
        goto(1, 1)
    }
}

impl Screen {
    pub fn clear() -> (r: String)
        ensures
            r@ == clear_all_seq(),
    {
        clear_all()
    }
}

/// Appends a styling sequence to `s`.
pub fn push_bold(s: &mut String)
    ensures
        final(s)@ == old(s)@ + bold_seq(),
{
    let t = bold();
    push_all(s, t.as_str());
}

pub fn push_reset(s: &mut String)
    ensures
        final(s)@ == old(s)@ + reset_seq(),
{
    let t = reset();
    push_all(s, t.as_str());
}

pub fn push_crossed_out(s: &mut String)
    ensures
        final(s)@ == old(s)@ + crossed_out_seq(),
{
    let t = crossed_out();
    push_all(s, t.as_str());
}

pub fn push_no_crossed_out(s: &mut String)
    ensures
        final(s)@ == old(s)@ + no_crossed_out_seq(),
{
    let t = no_crossed_out();
    push_all(s, t.as_str());
}

/// Appends the inverse colours that mark an outlined item.
pub fn push_outline_on(s: &mut String)
    ensures
        final(s)@ == old(s)@ + bg_white_seq() + fg_black_seq(),
{
    let b = bg_white();
    let f = fg_black();
    push_all(s, b.as_str());
    push_all(s, f.as_str());
}

/// Appends the sequences that restore the default colours.
pub fn push_outline_off(s: &mut String)
    ensures
        final(s)@ == old(s)@ + bg_reset_seq() + fg_reset_seq(),
{
    let b = bg_reset();
    let f = fg_reset();
    push_all(s, b.as_str());
    push_all(s, f.as_str());
}

/// Appends the cursor move to column `x`, row `y`.
pub fn push_goto(s: &mut String, x: u16, y: u16)
    requires
        !(x == 0 && y == 0),
    ensures
        final(s)@ == old(s)@ + goto_seq(x, y),
{
    let g = goto(x, y);
    push_all(s, g.as_str());
}

} // verus!

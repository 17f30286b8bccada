//! The cursor of the `scanny` crate, and what this library takes for granted
//! about it.
//!
//! A `Scanny` reads a text from left to right. While a token is being tried it
//! keeps a second, trial position that runs ahead of the committed one;
//! finishing the trial hands out what lies between the two and commits.
//!
//! As it consumes, a `Scanny` counts bytes (the UTF-8 width of each character;
//! one for a line break) and lines (one more after each line break, starting
//! at one). The counters are not part of the state named here: the text and a
//! position determine them, and [`finish`] states them so.
//!
//! Nothing here is proved: each contract restates what the method's source
//! does, over the state that [`scanny_state`] names.

use scanny::Scanny;
use vstd::prelude::*;
use crate::chars::{byte_len, first, newlines, run_len, CharClass};

verus! {

/// `scanny::Scanny`, taken as an opaque value: all that is said of it is said
/// through [`scanny_state`].
#[verifier::external_type_specification]
#[verifier::external_body]
pub struct ExScanny<'a>(scanny::Scanny<'a>);

/// A trial: how far it has read, and its two flags.
pub struct Trial {
    /// How many characters of the text lie before the trial position.
    pub at: nat,
    /// Set once the trial has been declared a match; nothing is matched after.
    pub matched: bool,
    /// Cleared by the first step that fails; nothing is matched after.
    pub open: bool,
}

/// What a `Scanny` holds.
pub struct ScanState {
    /// The whole text.
    pub text: Seq<char>,
    /// How many characters of the text lie before the committed position.
    pub at: nat,
    /// The trial in progress, if there is one.
    pub trial: Option<Trial>,
}

impl ScanState {
    /// The positions lie inside the text, the trial not behind the committed
    /// one.
    pub open spec fn wf(self) -> bool {
        &&& self.at <= self.text.len()
        &&& self.trial matches Some(t) ==> self.at <= t.at <= self.text.len()
    }

    /// The position that reading goes on from: the trial's, if there is one.
    pub open spec fn cursor(self) -> nat {
        match self.trial {
            Some(t) => t.at,
            None => self.at,
        }
    }

    /// The text from the cursor on.
    pub open spec fn pending(self) -> Seq<char> {
        self.text.skip(self.cursor() as int)
    }

    /// Whether a matching step still acts: no trial has been declared a match
    /// and no step of it has failed.
    pub open spec fn active(self) -> bool {
        match self.trial {
            Some(t) => !t.matched && t.open,
            None => true,
        }
    }

    /// The state with the cursor `n` characters further on.
    pub open spec fn advanced(self, n: nat) -> ScanState {
        match self.trial {
            Some(t) => ScanState { trial: Some(Trial { at: t.at + n, ..t }), ..self },
            None => ScanState { at: self.at + n, ..self },
        }
    }

    /// The state after a failed step: the trial, if there is one, is closed.
    pub open spec fn failed(self) -> ScanState {
        match self.trial {
            Some(t) => ScanState { trial: Some(Trial { open: false, ..t }), ..self },
            None => self,
        }
    }
}

/// The state of a `Scanny`: its text, its committed position and its trial.
pub uninterp spec fn scanny_state(sc: Scanny<'_>) -> ScanState;

/// What a finished trial hands out.
pub struct Lexed<'a> {
    /// The text between the committed position and the trial position.
    pub text: &'a str,
    /// Whether no step of the trial failed.
    pub complete: bool,
    pub byte_start: usize,
    pub byte_end: usize,
    /// Lines are counted from one here.
    pub line_start: usize,
    pub line_end: usize,
}

/// `Scanny::from` makes a cursor at the start of the text, with no trial.
#[verifier::external_body]
pub(crate) fn open<'a>(value: &'a str) -> (sc: Scanny<'a>)
    ensures
        scanny_state(sc) == (ScanState { text: value@, at: 0, trial: None }),
{
    Scanny::from(value)
}

/// `Scanny::peek` returns the character at the cursor and consumes nothing.
#[verifier::external_body]
pub(crate) fn peek(sc: &Scanny<'_>) -> (r: Option<char>)
    requires
        scanny_state(*sc).wf(),
    ensures
        r == first(scanny_state(*sc).pending()),
{
    sc.peek()
}

/// `Scanny::peek_second` returns the character after the one at the cursor
/// and consumes nothing.
#[verifier::external_body]
pub(crate) fn peek_second(sc: &Scanny<'_>) -> (r: Option<char>)
    requires
        scanny_state(*sc).wf(),
    ensures
        r == if scanny_state(*sc).pending().len() >= 2 {
            Some(scanny_state(*sc).pending()[1])
        } else {
            None
        },
{
    sc.peek_second()
}

/// `Scanny::bump` consumes the character at the cursor and returns it; at the
/// end of the text it returns `None` and changes nothing.
#[verifier::external_body]
pub(crate) fn bump(sc: &mut Scanny<'_>) -> (r: Option<char>)
    requires
        scanny_state(*old(sc)).wf(),
    ensures
        r == first(scanny_state(*old(sc)).pending()),
        scanny_state(*final(sc)) == scanny_state(*old(sc)).advanced(
            if r is Some {
                1
            } else {
                0
            },
        ),
{
    sc.bump()
}

/// `Scanny::matcher` starts a trial at the committed position, unless one is
/// in progress.
#[verifier::external_body]
pub(crate) fn begin(sc: &mut Scanny<'_>)
    requires
        scanny_state(*old(sc)).wf(),
    ensures
        scanny_state(*final(sc)) == if scanny_state(*old(sc)).trial is Some {
            scanny_state(*old(sc))
        } else {
            ScanState {
                trial: Some(Trial { at: scanny_state(*old(sc)).at, matched: false, open: true }),
                ..scanny_state(*old(sc))
            }
        },
{
    sc.matcher();
}

/// `Scanny::skeep_while` consumes characters for as long as the one at the
/// cursor is in the class, unless matching is no longer active.
#[verifier::external_body]
pub(crate) fn skip_while(sc: &mut Scanny<'_>, class: CharClass)
    requires
        scanny_state(*old(sc)).wf(),
    ensures
        scanny_state(*final(sc)) == if scanny_state(*old(sc)).active() {
            scanny_state(*old(sc)).advanced(run_len(scanny_state(*old(sc)).pending(), class))
        } else {
            scanny_state(*old(sc))
        },
{
    sc.skeep_while(|c| class.has(c));
}

/// `Scanny::consume_while` consumes characters for as long as the one at the
/// cursor is in the class, unless matching is no longer active.
#[verifier::external_body]
pub(crate) fn consume_while(sc: &mut Scanny<'_>, class: CharClass)
    requires
        scanny_state(*old(sc)).wf(),
    ensures
        scanny_state(*final(sc)) == if scanny_state(*old(sc)).active() {
            scanny_state(*old(sc)).advanced(run_len(scanny_state(*old(sc)).pending(), class))
        } else {
            scanny_state(*old(sc))
        },
{
    sc.consume_while(|c| class.has(*c));
}

/// `Scanny::match_char`, while matching is active: consumes the character at
/// the cursor if it is in the class; if it is not, the step fails; at the end
/// of the text nothing happens.
#[verifier::external_body]
pub(crate) fn match_char(sc: &mut Scanny<'_>, class: CharClass)
    requires
        scanny_state(*old(sc)).wf(),
    ensures
        scanny_state(*final(sc)) == {
            let s = scanny_state(*old(sc));
            if !s.active() || s.pending().len() == 0 {
                s
            } else if class.contains(s.pending()[0]) {
                s.advanced(1)
            } else {
                s.failed()
            }
        },
{
    sc.match_char(|c| class.has(*c));
}

/// `Scanny::finalize` ends the trial. It hands out the text between the
/// committed position and the trial position, whether no step failed, and the
/// bytes and lines at the two positions (lines counted from one), and commits
/// the trial position. Without a trial it returns `None` and changes nothing.
#[verifier::external_body]
pub(crate) fn finish<'a>(sc: &mut Scanny<'a>) -> (r: Option<Lexed<'a>>)
    requires
        scanny_state(*old(sc)).wf(),
    ensures
        r is Some == scanny_state(*old(sc)).trial is Some,
        scanny_state(*final(sc)) == (ScanState {
            at: scanny_state(*old(sc)).cursor(),
            trial: None,
            ..scanny_state(*old(sc))
        }),
        r matches Some(lx) ==> {
            let s = scanny_state(*old(sc));
            &&& lx.text@ == s.text.subrange(s.at as int, s.cursor() as int)
            &&& lx.complete == s.trial.unwrap().open
            &&& lx.byte_start == byte_len(s.text.take(s.at as int))
            &&& lx.byte_end == byte_len(s.text.take(s.cursor() as int))
            &&& lx.line_start == 1 + newlines(s.text.take(s.at as int))
            &&& lx.line_end == 1 + newlines(s.text.take(s.cursor() as int))
        },
{
    let found = sc.finalize(|m| (m.value(), m.is_matched()))?;
    let (bytes, lines) = (found.get_byte_pos(), found.get_line_pos());
    Some(
        Lexed {
            text: found.value.0,
            complete: found.value.1,
            byte_start: bytes.start,
            byte_end: bytes.end,
            line_start: *lines.start(),
            line_end: *lines.end(),
        },
    )
}

} // verus!

use vstd::prelude::*;
use crate::render::render_trimmed;
use crate::render::rendered_of;
use crate::render::lemma_rendered_of_empty;
use crate::render::lemma_rendered_keeps_absent_chars;
use crate::term::Term;

verus! {

/// The terminal emulator of one trial: a fixed rows x columns grid that
/// consumes the raw escape-sequence byte stream of a pseudo-terminal and
/// renders stable plain text. It holds a `vt100::Parser`, which Verus does
/// not see; the specification speaks of it through `screen_feed`,
/// `screen_size` and `screen_text`.
///
/// Each `complete` trial builds a fresh `Screen`, so no screen state can
/// leak from one trial into the next: the capture is a function of this
/// trial's viewport and bytes alone.
#[verifier::external_body]
pub struct Screen {
    parser: vt100::Parser,
}

/// The bytes fed to an emulator since it was created.
pub uninterp spec fn screen_feed(s: Screen) -> Seq<u8>;

/// The fixed grid size (rows, columns) an emulator was created with.
pub uninterp spec fn screen_size(s: Screen) -> (nat, nat);

/// The plain text a grid of the given size shows after consuming the given
/// byte stream: what the emulator's escape-sequence interpretation leaves
/// on the screen, a function of the size and the bytes alone.
pub uninterp spec fn screen_text(rows: nat, cols: nat, feed: Seq<u8>) -> Seq<char>;

impl Screen {
    /// The bytes fed to the emulator so far in this trial.
    pub open spec fn feed(self) -> Seq<u8> {
        screen_feed(self)
    }

    /// The grid size (rows, columns) fixed at construction.
    pub open spec fn size(self) -> (nat, nat) {
        screen_size(self)
    }

    /// The plain text the grid shows for the bytes fed so far.
    pub open spec fn text(self) -> Seq<char> {
        screen_text(self.size().0, self.size().1, self.feed())
    }

    /// A fresh emulator sized to the trial's viewport, with nothing fed.
    ///
    /// Relies on `vt100::Parser::new`: a parser over a blank grid of the
    /// given size, with no scrollback. Degenerate viewports are left out:
    /// the emulator does not support a grid with zero rows or columns, and
    /// a one-column grid cannot place a double-width character.
    #[verifier::external_body]
    pub fn new(term: &Term) -> (s: Screen)
        requires
            term.spec_width() >= 2,
            term.spec_height() >= 1,
        ensures
            screen_feed(s) == Seq::<u8>::empty(),
            screen_size(s) == (term.spec_height() as nat, term.spec_width() as nat),
    {
        Screen { parser: vt100::Parser::new(term.get_height(), term.get_width(), 0) }
    }

    /// Feed one chunk of raw pseudo-terminal output to the emulator.
    ///
    /// Relies on `vt100::Parser::process`: consumes the chunk and updates
    /// the grid; an escape sequence split across chunks is buffered until
    /// its continuation bytes arrive, so feeding is chunk-insensitive. The
    /// grid must not be degenerate (`new` never builds such a grid).
    #[verifier::external_body]
    pub fn process(&mut self, bytes: &[u8])
        requires
            screen_size(*old(self)).0 >= 1,
            screen_size(*old(self)).1 >= 2,
        ensures
            screen_feed(*final(self)) == screen_feed(*old(self)) + bytes@,
            screen_size(*final(self)) == screen_size(*old(self)),
    {
        self.parser.process(bytes);
    }

    /// Relies on `vt100::Screen::contents`: the grid's plain text, a
    /// function of the grid size and of the bytes fed; rows are joined with
    /// newlines and trailing newlines are stripped, so a blank grid yields
    /// the empty string and the text never ends in a newline. Escape bytes
    /// start control sequences and never enter a cell, so none appears in
    /// the text.
    #[verifier::external_body]
    fn contents_raw(&self) -> (r: String)
        ensures
            r@ == screen_text(screen_size(*self).0, screen_size(*self).1, screen_feed(*self)),
            screen_feed(*self).len() == 0 ==> r@ == Seq::<char>::empty(),
            !r@.contains('\u{1b}'),
            r@.len() > 0 ==> r@.last() != '\n',
    {
        self.parser.screen().contents()
    }

    /// The captured text: the grid rendered with each row trimmed of
    /// leading and trailing blanks, rows joined by newlines. An emulator
    /// that was fed nothing captures the empty string, and no capture
    /// carries a raw escape byte.
    pub fn capture(&self) -> (r: String)
        ensures
            r@ == rendered_of(self.text()),
            self.feed().len() == 0 ==> r@ == Seq::<char>::empty(),
            !r@.contains('\u{1b}'),
    {
        let raw = self.contents_raw();
        proof {
            if self.feed().len() == 0 {
                lemma_rendered_of_empty();
            }
            lemma_rendered_keeps_absent_chars(self.text(), '\u{1b}');
        }
        render_trimmed(raw.as_str())
    }
}

} // verus!

//! Parsed dialog content: an ordered list of lines, each with a portrait,
//! a speaker and a body text.
use vstd::prelude::*;
use crate::dialog::portrait::Portrait;

verus! {

/// What a line is made of: its portrait, its speaker and its text.
pub type LineView = (Portrait, Seq<char>, Seq<char>);

/// One line of a dialog.
#[derive(Debug)]
pub struct DialogLine {
    pub portrait: Portrait,
    pub text: String,
    pub speaker: String,
}

impl View for DialogLine {
    type V = LineView;

    open spec fn view(&self) -> LineView {
        (self.portrait, self.speaker@, self.text@)
    }
}

/// The content of one dialog, in display order.
#[derive(Debug)]
pub struct DialogAsset {
    pub lines: Vec<DialogLine>,
}

impl View for DialogAsset {
    type V = Seq<LineView>;

    open spec fn view(&self) -> Seq<LineView> {
        self.lines@.map_values(|l: DialogLine| l@)
    }
}

/// The document a content file holds: one `(portrait, speaker, text)`
/// triple per line.
#[derive(Debug)]
pub struct DialogFile {
    pub lines: Vec<(Portrait, String, String)>,
}

impl View for DialogFile {
    type V = Seq<LineView>;

    open spec fn view(&self) -> Seq<LineView> {
        self.lines@.map_values(|t: (Portrait, String, String)| (t.0, t.1@, t.2@))
    }
}

/// The line at `index`, or `None` past the end.
pub open spec fn line_at(lines: Seq<LineView>, index: int) -> Option<LineView> {
    if 0 <= index < lines.len() {
        Some(lines[index])
    } else {
        None
    }
}

impl Default for DialogAsset {
    fn default() -> (r: DialogAsset)
        ensures
            r@ == Seq::<LineView>::empty(),
    {
        let r = DialogAsset { lines: Vec::new() };
        assert(r@ =~= Seq::<LineView>::empty());
        r
    }
}

impl DialogAsset {
    /// Builds the content of a dialog from a parsed file: every triple
    /// becomes one line, in file order, with nothing dropped or changed.
    pub fn from_file(file: DialogFile) -> (r: DialogAsset)
        ensures
            r@ == file@,
    {
        let mut lines: Vec<DialogLine> = Vec::new();
        let mut i: usize = 0;
        while i < file.lines.len()
            invariant
                i <= file.lines@.len(),
                lines@.len() == i,
                forall|j: int| 0 <= j < i ==> #[trigger] lines@[j]@ == file@[j],
            decreases file.lines@.len() - i,
        {
            let (portrait, speaker, text) = &file.lines[i];
            lines.push(DialogLine { portrait: *portrait, text: text.clone(), speaker: speaker.clone() });
            i = i + 1;
        }
        let r = DialogAsset { lines };
        assert(r@ =~= file@);
        r
    }

    /// Number of lines.
    pub fn len(&self) -> (r: usize)
        ensures
            r == self@.len(),
    {
        self.lines.len()
    }

    /// The line at `index`, or `None` past the end.
    pub fn line(&self, index: usize) -> (r: Option<&DialogLine>)
        ensures
            r is Some ==> line_at(self@, index as int) == Some(r->0@),
            r is None ==> line_at(self@, index as int) is None,
    {
        if index < self.lines.len() {
            Some(&self.lines[index])
        } else {
            None
        }
    }
}

} // verus!

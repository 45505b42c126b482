use vstd::prelude::*;

verus! {

/// The text owned by the editor: an ordered sequence of lines, each line an
/// ordered sequence of characters. A buffer is never empty — it always holds
/// at least one, possibly empty, line.
pub struct Buffer {
    pub lines: Vec<Vec<char>>,
}

impl View for Buffer {
    type V = Seq<Seq<char>>;

    open spec fn view(&self) -> Seq<Seq<char>> {
        Seq::new(self.lines@.len(), |i: int| self.lines@[i]@)
    }
}

impl Buffer {
    /// Construction yields exactly one empty line.
    pub fn new() -> (b: Buffer)
        ensures
            b@ =~= seq![Seq::<char>::empty()],
    {
        let line: Vec<char> = Vec::new();
        let mut lines: Vec<Vec<char>> = Vec::new();
        lines.push(line);
        Buffer { lines }
    }
}

} // verus!

//! File system locations, kept as the sequence of components that are pushed,
//! one after the other, onto an empty path.

use vstd::prelude::*;

verus! {

/// A path as the list of its pushed components. The first component is
/// usually an absolute directory handed over by the operating system.
#[derive(Debug)]
pub struct FilePath {
    pub parts: Vec<String>,
}

impl View for FilePath {
    type V = Seq<Seq<char>>;

    open spec fn view(&self) -> Seq<Seq<char>> {
        self.parts@.map_values(|s: String| s@)
    }
}

impl FilePath {
    /// A path made of one component.
    pub fn from_root(root: &str) -> (r: FilePath)
        ensures
            r@ == seq![root@],
    {
        let mut parts: Vec<String> = Vec::new();
        parts.push(root.to_string());
        let r = FilePath { parts };
        assert(r@ =~= seq![root@]);
        r
    }

    /// A path with the same components as this one.
    pub fn duplicate(&self) -> (r: FilePath)
        ensures
            r@ == self@,
    {
        let mut parts: Vec<String> = Vec::new();
        let n = self.parts.len();
        let mut i: usize = 0;
        while i < n
            invariant
                n == self.parts@.len(),
                i <= n,
                parts@.len() == i,
                forall|j: int| 0 <= j < i ==> #[trigger] parts@[j]@ == self.parts@[j]@,
            decreases n - i,
        {
            parts.push(self.parts[i].clone());
            i = i + 1;
        }
        let r = FilePath { parts };
        assert(r@ =~= self@);
        r
    }

    /// This path with `part` pushed at its end.
    pub fn join(&self, part: &str) -> (r: FilePath)
        ensures
            r@ == self@.push(part@),
    {
        let mut r = self.duplicate();
        r.parts.push(part.to_string());
        assert(r@ =~= self@.push(part@));
        r
    }
}

} // verus!

//! Paths of the portable tree as a root followed by the names joined onto it.
//!
//! Every path the tools write to is built by joining fixed names onto one
//! root directory. Keeping the components apart, instead of one rendered
//! string, states exactly which names were joined; rendering them with the
//! platform's separator happens where the path is handed to the file system.

use vstd::prelude::*;

verus! {

/// A root directory followed by the names joined onto it, in order.
#[derive(Debug)]
pub struct LayoutPath {
    /// `parts[0]` is the root as given; the rest are the joined names.
    pub parts: Vec<String>,
}

impl View for LayoutPath {
    type V = Seq<Seq<char>>;

    open spec fn view(&self) -> Seq<Seq<char>> {
        self.parts.deep_view()
    }
}

/// A copy of `parts`, string by string.
fn copy_parts(parts: &Vec<String>) -> (r: Vec<String>)
    ensures
        r.deep_view() == parts.deep_view(),
{
    let mut r: Vec<String> = Vec::new();
    let mut i: usize = 0;
    while i < parts.len()
        invariant
            i <= parts.len(),
            r@.len() == i,
            r.deep_view() =~= parts.deep_view().take(i as int),
        decreases parts.len() - i,
    {
        let part = parts[i].clone();
        r.push(part);
        assert(r.deep_view()[i as int] == parts.deep_view()[i as int]);
        i = i + 1;
    }
    assert(parts.deep_view().take(parts.len() as int) =~= parts.deep_view());
    r
}

impl LayoutPath {
    /// The path made of the root alone.
    pub fn from_root(root: &str) -> (p: LayoutPath)
        ensures
            p@ == seq![root@],
    {
        let mut parts: Vec<String> = Vec::new();
        parts.push(root.to_owned());
        let p = LayoutPath { parts };
        assert(p@ =~= seq![root@]);
        p
    }

    /// This path with `name` joined onto it.
    pub fn join(&self, name: &str) -> (p: LayoutPath)
        ensures
            p@ == self@.push(name@),
    {
        let mut parts = copy_parts(&self.parts);
        parts.push(name.to_owned());
        let p = LayoutPath { parts };
        assert(p@ =~= self@.push(name@));
        p
    }

    /// A copy of this path.
    pub fn duplicate(&self) -> (p: LayoutPath)
        ensures
            p@ == self@,
    {
        LayoutPath { parts: copy_parts(&self.parts) }
    }

    /// Whether `base` is this path or one of its ancestors, comparing whole
    /// components.
    pub fn starts_with(&self, base: &LayoutPath) -> (r: bool)
        ensures
            r == base@.is_prefix_of(self@),
    {
        if base.parts.len() > self.parts.len() {
            return false;
        }
        let mut i: usize = 0;
        while i < base.parts.len()
            invariant
                base.parts.len() <= self.parts.len(),
                i <= base.parts.len(),
                forall|k: int| 0 <= k < i ==> base@[k] == self@[k],
            decreases base.parts.len() - i,
        {
            if base.parts[i] != self.parts[i] {
                assert(base@[i as int] != self@.subrange(0, base@.len() as int)[i as int]);
                return false;
            }
            i = i + 1;
        }
        true
    }

    /// The path with its last joined name removed; `None` for the root alone,
    /// whose own parent lies outside the layout.
    pub fn parent(&self) -> (r: Option<LayoutPath>)
        ensures
            self@.len() > 1 ==> r is Some && r->0@ == self@.drop_last(),
            self@.len() <= 1 ==> r is None,
    {
        if self.parts.len() <= 1 {
            return None;
        }
        let mut parts: Vec<String> = Vec::new();
        let mut i: usize = 0;
        let last = self.parts.len() - 1;
        while i < last
            invariant
                last == self.parts.len() - 1,
                i <= last,
                parts@.len() == i,
                parts.deep_view() =~= self@.take(i as int),
            decreases last - i,
        {
            parts.push(self.parts[i].clone());
            assert(parts.deep_view()[i as int] == self@[i as int]);
            i = i + 1;
        }
        let p = LayoutPath { parts };
        assert(p@ =~= self@.drop_last());
        Some(p)
    }

    /// The root and the joined names, in order.
    pub fn components(&self) -> (r: &Vec<String>)
        ensures
            r.deep_view() == self@,
    {
        &self.parts
    }
}

} // verus!

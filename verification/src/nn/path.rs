//! Paths naming the variables of a model, `root / "features" / 3 / "conv"`.
use crate::format::{decimal, decimal_string};
use vstd::prelude::*;

verus! {

broadcast use vstd::std_specs::vec::vec_clone_deep_view_proof;

/// A path in a variable store: the names under which a layer registers its
/// variables. A variable `weight` of the layer at path `[a, b]` is stored
/// under the name `a.b.weight`, so no component may contain a dot.
pub struct Path {
    pub components: Vec<String>,
}

impl View for Path {
    type V = Seq<Seq<char>>;

    open spec fn view(&self) -> Seq<Seq<char>> {
        self.components.deep_view()
    }
}

/// Whether a name can be a path component.
pub open spec fn valid_component(name: Seq<char>) -> bool {
    !name.contains('.')
}

impl Path {
    /// The root path, holding no component.
    pub fn root() -> (p: Path)
        ensures
            p@ == Seq::<Seq<char>>::empty(),
    {
        let p = Path { components: Vec::new() };
        assert(p@ =~= Seq::<Seq<char>>::empty());
        p
    }

    /// The path of a sub-module named `name`.
    pub fn sub(&self, name: &str) -> (p: Path)
        requires
            valid_component(name@),
        ensures
            p@ == self@.push(name@),
    {
        let mut components = self.components.clone();
        let ghost before = components.deep_view();
        components.push(String::from_str(name));
        assert(components.deep_view() =~= before.push(name@));
        Path { components }
    }

    /// The path of the sub-module numbered `i`, as in `path / i`.
    pub fn sub_index(&self, i: usize) -> (p: Path)
        ensures
            p@ == self@.push(decimal(i as nat)),
    {
        let mut components = self.components.clone();
        let ghost before = components.deep_view();
        components.push(decimal_string(i as u64));
        assert(components.deep_view() =~= before.push(decimal(i as nat)));
        Path { components }
    }
}

} // verus!

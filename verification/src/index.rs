//! The level index: which levels exist, each under a name with a display
//! name and a document path.
//!
//! The index arrives as a parsed list of entries; this module keeps their
//! order and answers lookups by name, a later entry of the same name
//! replacing an earlier one.

use vstd::prelude::*;

verus! {

/// One level of the index: its key name, its display name, and the path of
/// its document.
#[derive(Debug, Clone, PartialEq)]
pub struct LevelRef {
    pub name: String,
    pub display: String,
    pub path: String,
}

/// The mathematical value of an index entry.
#[verifier::ext_equal]
pub struct LevelRefView {
    pub name: Seq<char>,
    pub display: Seq<char>,
    pub path: Seq<char>,
}

impl View for LevelRef {
    type V = LevelRefView;

    open spec fn view(&self) -> LevelRefView {
        LevelRefView { name: self.name@, display: self.display@, path: self.path@ }
    }
}

impl DeepView for LevelRef {
    type V = LevelRefView;

    open spec fn deep_view(&self) -> LevelRefView {
        self.view()
    }
}

/// The ordered level index.
#[derive(Debug, Clone, PartialEq)]
pub struct LevelIndex {
    pub entries: Vec<LevelRef>,
}

/// The level names in index order, one per entry.
pub open spec fn spec_order(entries: Seq<LevelRef>) -> Seq<Seq<char>> {
    Seq::new(entries.len(), |i: int| entries[i].name@)
}

/// The entry a name refers to: the last entry carrying it, as a keyed
/// store filled in order would hold.
pub open spec fn spec_level_for(entries: Seq<LevelRef>, name: Seq<char>) -> Option<LevelRef>
    decreases entries.len(),
{
    if entries.len() == 0 {
        None
    } else if entries.last().name@ == name {
        Some(entries.last())
    } else {
        spec_level_for(entries.drop_last(), name)
    }
}

impl LevelIndex {
    pub fn new(entries: Vec<LevelRef>) -> (index: LevelIndex)
        ensures
            index == (LevelIndex { entries }),
    {
        LevelIndex { entries }
    }

    /// The level names, in index order.
    pub fn order(&self) -> (names: Vec<String>)
        ensures
            names.deep_view() == spec_order(self.entries@),
    {
        let mut names: Vec<String> = Vec::new();
        let mut i: usize = 0;
        while i < self.entries.len()
            invariant
                i <= self.entries@.len(),
                names.deep_view() =~= spec_order(self.entries@.take(i as int)),
            decreases self.entries@.len() - i,
        {
            let ghost prev = names.deep_view();
            names.push(self.entries[i].name.clone());
            proof {
                let dv = names.deep_view();
                assert(prev.len() == spec_order(self.entries@.take(i as int)).len());
                assert(prev.len() == i);
                assert(names@.len() == prev.len() + 1);
                assert(dv.len() == names@.len());
                assert forall|j: int|
                    0 <= j < i + 1 implies dv[j] == spec_order(self.entries@.take(i + 1))[j] by {
                    assert(self.entries@.take(i + 1)[j] == self.entries@[j]);
                    if j < i {
                        assert(dv[j] == names@[j]@ && names@[j] == names@.drop_last()[j]);
                        assert(prev[j] == spec_order(self.entries@.take(i as int))[j]);
                        assert(spec_order(self.entries@.take(i as int))[j] == self.entries@.take(
                            i as int,
                        )[j].name@);
                        assert(self.entries@.take(i as int)[j] == self.entries@[j]);
                    } else {
                        assert(dv[j] == names@[j]@);
                    }
                }
                assert(names.deep_view() =~= spec_order(self.entries@.take(i + 1)));
            }
            i += 1;
        }
        proof {
            assert(self.entries@.take(i as int) =~= self.entries@);
        }
        names
    }

    /// The entry under the given name, if any: the last one carrying it.
    pub fn get(&self, name: &String) -> (r: Option<&LevelRef>)
        ensures
            match r {
                Some(level) => spec_level_for(self.entries@, name@) == Some(*level),
                None => spec_level_for(self.entries@, name@) is None,
            },
    {
        let mut i: usize = self.entries.len();
        proof {
            assert(self.entries@.take(i as int) =~= self.entries@);
        }
        while i > 0
            invariant
                i <= self.entries@.len(),
                spec_level_for(self.entries@, name@) == spec_level_for(
                    self.entries@.take(i as int),
                    name@,
                ),
            decreases i,
        {
            i -= 1;
            proof {
                assert(self.entries@.take(i + 1).last() == self.entries@[i as int]);
                assert(self.entries@.take(i + 1).drop_last() =~= self.entries@.take(i as int));
            }
            if self.entries[i].name == *name {
                return Some(&self.entries[i]);
            }
        }
        None
    }
}

} // verus!

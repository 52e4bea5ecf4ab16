//! Versions of a buffer that several replicas edit.

use vstd::prelude::*;

verus! {

/// A version of a buffer: for each replica, the last of its edits that the version holds.
#[derive(Debug)]
pub struct Global {
    pub values: Vec<u32>,
}

impl View for Global {
    type V = Seq<u32>;

    open spec fn view(&self) -> Seq<u32> {
        self.values@
    }
}

/// The last edit of a replica that a version holds; zero if it holds none.
pub open spec fn observed(version: Seq<u32>, replica: int) -> u32 {
    if 0 <= replica < version.len() {
        version[replica]
    } else {
        0
    }
}

/// Whether a version holds an edit that another one does not.
pub open spec fn spec_changed_since(version: Seq<u32>, other: Seq<u32>) -> bool {
    exists|replica: int| #[trigger] observed(version, replica) > observed(other, replica)
}

impl Global {
    /// The version that holds no edits.
    pub fn new() -> (version: Self)
        ensures
            version@ == Seq::<u32>::empty(),
    {
        Global { values: Vec::new() }
    }

    /// Tells whether a version holds an edit that another one does not.
    pub fn changed_since(&self, other: &Global) -> (result: bool)
        ensures
            result == spec_changed_since(self@, other@),
    {
        let mut i: usize = 0;
        while i < self.values.len()
            invariant
                i <= self@.len(),
                forall|r: int| 0 <= r < i ==> #[trigger] observed(self@, r) <= observed(other@, r),
            decreases self@.len() - i,
        {
            let theirs: u32 = if i < other.values.len() {
                other.values[i]
            } else {
                0
            };
            if self.values[i] > theirs {
                assert(observed(self@, i as int) > observed(other@, i as int));
                return true;
            }
            i = i + 1;
        }
        false
    }

    /// Tells whether two versions are the same.
    pub fn same(&self, other: &Global) -> (result: bool)
        ensures
            result == (self@ == other@),
    {
        if self.values.len() != other.values.len() {
            return false;
        }
        let mut i: usize = 0;
        while i < self.values.len()
            invariant
                i <= self@.len() == other@.len(),
                forall|r: int| 0 <= r < i ==> self@[r] == other@[r],
            decreases self@.len() - i,
        {
            if self.values[i] != other.values[i] {
                return false;
            }
            i = i + 1;
        }
        assert(self@ =~= other@);
        true
    }
}

impl Clone for Global {
    fn clone(&self) -> (copy: Self)
        ensures
            copy@ == self@,
    {
        let mut values: Vec<u32> = Vec::new();
        let mut i: usize = 0;
        while i < self.values.len()
            invariant
                i <= self@.len(),
                values@ == self@.take(i as int),
            decreases self@.len() - i,
        {
            values.push(self.values[i]);
            i = i + 1;
            assert(self@.take(i as int) =~= self@.take(i - 1).push(self@[i - 1]));
        }
        assert(values@ =~= self@);
        Global { values }
    }
}

/// A version changed since another exactly if some replica's last edit in it is later; an edit that the
/// other does not know of at all counts from zero.
pub proof fn law_version_changed_if_some_edit_is_newer(version: Seq<u32>, other: Seq<u32>)
    ensures
        spec_changed_since(version, other) <==> exists|i: int|
            0 <= i < version.len() && (#[trigger] version[i]) > if i < other.len() {
                other[i]
            } else {
                0
            },
        !spec_changed_since(version, version),
{
    if spec_changed_since(version, other) {
        let i = choose|i: int| #[trigger] observed(version, i) > observed(other, i);
        assert(version[i] == observed(version, i));
    }
    if exists|i: int|
        0 <= i < version.len() && (#[trigger] version[i]) > if i < other.len() {
            other[i]
        } else {
            0
        } {
        let i = choose|i: int|
            0 <= i < version.len() && (#[trigger] version[i]) > if i < other.len() {
                other[i]
            } else {
                0
            };
        assert(observed(version, i) > observed(other, i));
    }
}

} // verus!

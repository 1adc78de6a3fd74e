//! A set of paths, kept as a list in which no path occurs twice.

use crate::paths::{affected, is_affected, moved, relocate};
use vstd::prelude::*;
use vstd::string::StringExecFns;

verus! {

/// The paths of `s` after `old` was renamed to `new`.
pub open spec fn moved_set(
    s: Set<Seq<char>>,
    old: Seq<char>,
    new: Seq<char>,
    was_dir: bool,
) -> Set<Seq<char>> {
    Set::new(
        |q: Seq<char>|
            exists|p: Seq<char>| s.contains(p) && #[trigger] moved(p, old, new, was_dir) == q,
    )
}

/// The paths of `s` that are left once `target` was deleted.
pub open spec fn unaffected_set(s: Set<Seq<char>>, target: Seq<char>, was_dir: bool) -> Set<
    Seq<char>,
> {
    Set::new(|p: Seq<char>| s.contains(p) && !affected(p, target, was_dir))
}

spec fn holds(items: Seq<String>, t: Seq<char>) -> bool {
    exists|i: int| 0 <= i < items.len() && (#[trigger] items[i])@ == t
}

spec fn distinct(items: Seq<String>) -> bool {
    forall|i: int, j: int|
        0 <= i < j < items.len() ==> (#[trigger] items[i])@ != (#[trigger] items[j])@
}

/// A set of paths.
#[derive(Debug)]
pub struct PathSet {
    items: Vec<String>,
}

impl View for PathSet {
    type V = Set<Seq<char>>;

    closed spec fn view(&self) -> Set<Seq<char>> {
        Set::new(|t: Seq<char>| holds(self.items@, t))
    }
}

fn position(items: &Vec<String>, path: &String) -> (r: Option<usize>)
    ensures
        match r {
            Some(i) => i < items.len() && items@[i as int]@ == path@,
            None => !holds(items@, path@),
        },
{
    let mut i: usize = 0;
    while i < items.len()
        invariant
            i <= items.len(),
            forall|k: int| 0 <= k < i ==> (#[trigger] items@[k])@ != path@,
        decreases items.len() - i,
    {
        if items[i] == *path {
            return Some(i);
        }
        i += 1;
    }
    None
}

impl PathSet {
    #[verifier::type_invariant]
    spec fn nothing_twice(self) -> bool {
        distinct(self.items@)
    }

    /// The empty set.
    pub fn new() -> (s: PathSet)
        ensures
            s@ == Set::<Seq<char>>::empty(),
    {
        let s = PathSet { items: Vec::new() };
        assert(s@ =~= Set::<Seq<char>>::empty());
        s
    }

    /// Whether `path` is in the set.
    pub fn contains(&self, path: &str) -> (b: bool)
        ensures
            b == self@.contains(path@),
    {
        let key = String::from_str(path);
        position(&self.items, &key).is_some()
    }

    /// Whether the set holds no path.
    pub fn is_empty(&self) -> (b: bool)
        ensures
            b == (self@ == Set::<Seq<char>>::empty()),
    {
        let b = self.items.len() == 0;
        proof {
            if b {
                assert(self@ =~= Set::<Seq<char>>::empty());
            } else {
                assert(holds(self.items@, self.items@[0]@));
                assert(self@.contains(self.items@[0]@));
            }
        }
        b
    }

    /// Adds `path`; says whether it was new.
    pub fn insert(&mut self, path: String) -> (added: bool)
        ensures
            final(self)@ == old(self)@.insert(path@),
            added == !old(self)@.contains(path@),
    {
        proof {
            use_type_invariant(&*self);
        }
        match position(&self.items, &path) {
            Some(_) => {
                assert(self@ =~= old(self)@.insert(path@));
                false
            },
            None => {
                let ghost before = self.items@;
                let mut items: Vec<String> = Vec::new();
                std::mem::swap(&mut items, &mut self.items);
                items.push(path);
                self.items = items;
                proof {
                    assert forall|t: Seq<char>| holds(self.items@, t) <==> (holds(before, t) || t
                        == path@) by {
                        if holds(self.items@, t) {
                            let i = choose|i: int|
                                0 <= i < self.items@.len() && (#[trigger] self.items@[i])@ == t;
                            if i < before.len() {
                                assert(before[i]@ == t);
                            }
                        }
                        if holds(before, t) {
                            let i = choose|i: int| 0 <= i < before.len() && (#[trigger] before[i])@ == t;
                            assert(self.items@[i]@ == t);
                        }
                        if t == path@ {
                            assert(self.items@[before.len() as int]@ == t);
                        }
                    }
                    assert(self@ =~= old(self)@.insert(path@));
                    assert forall|i: int, j: int| 0 <= i < j < self.items@.len() implies (
                    #[trigger] self.items@[i])@ != (#[trigger] self.items@[j])@ by {
                        if j < before.len() {
                            assert(before[i]@ != before[j]@);
                        } else {
                            assert(before[i]@ != path@);
                        }
                    }
                }
                true
            },
        }
    }

    /// Takes `path` out; says whether it was there.
    pub fn remove(&mut self, path: &str) -> (removed: bool)
        ensures
            final(self)@ == old(self)@.remove(path@),
            removed == old(self)@.contains(path@),
    {
        proof {
            use_type_invariant(&*self);
        }
        let key = String::from_str(path);
        match position(&self.items, &key) {
            Some(i) => {
                let ghost before = self.items@;
                let mut items: Vec<String> = Vec::new();
                std::mem::swap(&mut items, &mut self.items);
                items.remove(i);
                self.items = items;
                proof {
                    assert(holds(before, path@));
                    assert forall|t: Seq<char>| holds(self.items@, t) <==> (holds(before, t) && t
                        != path@) by {
                        if holds(self.items@, t) {
                            let k = choose|k: int|
                                0 <= k < self.items@.len() && (#[trigger] self.items@[k])@ == t;
                            if k < i {
                                assert(before[k]@ == t);
                            } else {
                                assert(before[k + 1]@ == t);
                            }
                        }
                        if holds(before, t) && t != path@ {
                            let k = choose|k: int| 0 <= k < before.len() && (#[trigger] before[k])@ == t;
                            if k < i {
                                assert(self.items@[k]@ == t);
                            } else {
                                assert(self.items@[k - 1]@ == t);
                            }
                        }
                    }
                    assert(self@ =~= old(self)@.remove(path@));
                    assert forall|a: int, b: int| 0 <= a < b < self.items@.len() implies (
                    #[trigger] self.items@[a])@ != (#[trigger] self.items@[b])@ by {
                        let a0 = if a < i {
                            a
                        } else {
                            a + 1
                        };
                        let b0 = if b < i {
                            b
                        } else {
                            b + 1
                        };
                        assert(before[a0]@ != before[b0]@);
                    }
                }
                true
            },
            None => {
                assert(self@ =~= old(self)@.remove(path@));
                false
            },
        }
    }

    /// Takes every path out.
    pub fn clear(&mut self)
        ensures
            final(self)@ == Set::<Seq<char>>::empty(),
    {
        self.items = Vec::new();
        assert(self@ =~= Set::<Seq<char>>::empty());
    }

    /// Moves every path that renaming `old` to `new` touches.
    pub fn rename(&mut self, old_path: &str, new_path: &str, was_dir: bool)
        ensures
            final(self)@ == moved_set(old(self)@, old_path@, new_path@, was_dir),
    {
        let ghost before = self.items@;
        let mut out = PathSet::new();
        let mut i: usize = 0;
        while i < self.items.len()
            invariant
                i <= self.items.len(),
                self.items@ == before,
                forall|t: Seq<char>|
                    out@.contains(t) <==> exists|k: int|
                        0 <= k < i && #[trigger] moved(
                            before[k]@,
                            old_path@,
                            new_path@,
                            was_dir,
                        ) == t,
            decreases self.items.len() - i,
        {
            let m = relocate(self.items[i].as_str(), old_path, new_path, was_dir);
            let ghost prev = out@;
            out.insert(m);
            proof {
                assert forall|t: Seq<char>| out@.contains(t) <==> exists|k: int|
                    0 <= k < i + 1 && #[trigger] moved(before[k]@, old_path@, new_path@, was_dir)
                        == t by {
                    if out@.contains(t) {
                        if prev.contains(t) {
                            let k = choose|k: int|
                                0 <= k < i && #[trigger] moved(
                                    before[k]@,
                                    old_path@,
                                    new_path@,
                                    was_dir,
                                ) == t;
                            assert(0 <= k < i + 1 && moved(before[k]@, old_path@, new_path@, was_dir)
                                == t);
                        } else {
                            assert(moved(before[i as int]@, old_path@, new_path@, was_dir) == t);
                        }
                    }
                    if exists|k: int|
                        0 <= k < i + 1 && #[trigger] moved(
                            before[k]@,
                            old_path@,
                            new_path@,
                            was_dir,
                        ) == t {
                        let k = choose|k: int|
                            0 <= k < i + 1 && #[trigger] moved(
                                before[k]@,
                                old_path@,
                                new_path@,
                                was_dir,
                            ) == t;
                        if k < i {
                            assert(prev.contains(t));
                        }
                    }
                }
            }
            i += 1;
        }
        proof {
            assert forall|t: Seq<char>| out@.contains(t) <==> moved_set(
                old(self)@,
                old_path@,
                new_path@,
                was_dir,
            ).contains(t) by {
                if out@.contains(t) {
                    let k = choose|k: int|
                        0 <= k < i && #[trigger] moved(before[k]@, old_path@, new_path@, was_dir)
                            == t;
                    assert(holds(before, before[k]@));
                    assert(old(self)@.contains(before[k]@));
                }
                if moved_set(old(self)@, old_path@, new_path@, was_dir).contains(t) {
                    let p = choose|p: Seq<char>|
                        old(self)@.contains(p) && #[trigger] moved(p, old_path@, new_path@, was_dir)
                            == t;
                    assert(holds(before, p));
                    let k = choose|k: int| 0 <= k < before.len() && (#[trigger] before[k])@ == p;
                    assert(moved(before[k]@, old_path@, new_path@, was_dir) == t);
                }
            }
            assert(out@ =~= moved_set(old(self)@, old_path@, new_path@, was_dir));
        }
        *self = out;
    }

    /// Takes out every path that deleting `target` touches.
    pub fn delete(&mut self, target: &str, was_dir: bool)
        ensures
            final(self)@ == unaffected_set(old(self)@, target@, was_dir),
    {
        let ghost before = self.items@;
        let mut out = PathSet::new();
        let mut i: usize = 0;
        while i < self.items.len()
            invariant
                i <= self.items.len(),
                self.items@ == before,
                forall|t: Seq<char>|
                    out@.contains(t) <==> (!affected(t, target@, was_dir) && exists|k: int|
                        0 <= k < i && (#[trigger] before[k])@ == t),
            decreases self.items.len() - i,
        {
            let ghost prev = out@;
            if !is_affected(self.items[i].as_str(), target, was_dir) {
                out.insert(self.items[i].clone());
            }
            proof {
                assert forall|t: Seq<char>| out@.contains(t) <==> (!affected(t, target@, was_dir)
                    && exists|k: int| 0 <= k < i + 1 && (#[trigger] before[k])@ == t) by {
                    if out@.contains(t) {
                        if prev.contains(t) {
                            let k = choose|k: int| 0 <= k < i && (#[trigger] before[k])@ == t;
                            assert(0 <= k < i + 1 && before[k]@ == t);
                        } else {
                            assert(before[i as int]@ == t);
                        }
                    }
                    if !affected(t, target@, was_dir) && exists|k: int|
                        0 <= k < i + 1 && (#[trigger] before[k])@ == t {
                        let k = choose|k: int| 0 <= k < i + 1 && (#[trigger] before[k])@ == t;
                        if k < i {
                            assert(prev.contains(t));
                        }
                    }
                }
            }
            i += 1;
        }
        proof {
            assert forall|t: Seq<char>| out@.contains(t) <==> unaffected_set(
                old(self)@,
                target@,
                was_dir,
            ).contains(t) by {
                if out@.contains(t) {
                    let k = choose|k: int| 0 <= k < i && (#[trigger] before[k])@ == t;
                    assert(holds(before, t));
                }
                if unaffected_set(old(self)@, target@, was_dir).contains(t) {
                    assert(holds(before, t));
                }
            }
            assert(out@ =~= unaffected_set(old(self)@, target@, was_dir));
        }
        *self = out;
    }

    /// The paths of the set, each once.
    pub fn to_vec(&self) -> (out: Vec<String>)
        ensures
            forall|t: Seq<char>|
                self@.contains(t) <==> exists|i: int|
                    0 <= i < out@.len() && (#[trigger] out@[i])@ == t,
            forall|i: int, j: int|
                0 <= i < j < out@.len() ==> (#[trigger] out@[i])@ != (#[trigger] out@[j])@,
    {
        proof {
            use_type_invariant(self);
        }
        let mut out: Vec<String> = Vec::new();
        let mut i: usize = 0;
        while i < self.items.len()
            invariant
                i <= self.items.len(),
                out@.len() == i,
                forall|k: int| 0 <= k < i ==> (#[trigger] out@[k])@ == self.items@[k]@,
            decreases self.items.len() - i,
        {
            out.push(self.items[i].clone());
            i += 1;
        }
        proof {
            assert forall|t: Seq<char>| self@.contains(t) <==> exists|i: int|
                0 <= i < out@.len() && (#[trigger] out@[i])@ == t by {
                if self@.contains(t) {
                    let k = choose|k: int|
                        0 <= k < self.items@.len() && (#[trigger] self.items@[k])@ == t;
                    assert(out@[k]@ == t);
                }
                if exists|i: int| 0 <= i < out@.len() && (#[trigger] out@[i])@ == t {
                    let k = choose|k: int| 0 <= k < out@.len() && (#[trigger] out@[k])@ == t;
                    assert(self.items@[k]@ == t);
                }
            }
            assert forall|i: int, j: int| 0 <= i < j < out@.len() implies (#[trigger] out@[i])@ != (
            #[trigger] out@[j])@ by {
                assert(self.items@[i]@ != self.items@[j]@);
            }
        }
        out
    }
}

} // verus!

//! The driver rotation: an ordered list of participant names, with positional
//! insertion, removal, and next/previous computation.

use vstd::prelude::*;
use vstd::arithmetic::div_mod::{
    lemma_small_mod,
    lemma_mod_self_0,
    lemma_mod_multiples_vanish,
    lemma_mod_bound,
    lemma_add_mod_noop,
};
use crate::text::str_eq;
use vstd::string::StringExecFns;

verus! {

/// Index of the first occurrence of `x` in `s`, or `-1` when absent.
pub open spec fn first_index(s: Seq<Seq<char>>, x: Seq<char>) -> int
    decreases s.len(),
{
    if s.len() == 0 {
        -1
    } else if s[0] == x {
        0
    } else {
        let r = first_index(s.drop_first(), x);
        if r < 0 {
            -1
        } else {
            r + 1
        }
    }
}

/// What `first_index` finds: the first occurrence when `x` is present, `-1`
/// when it is not.
pub proof fn lemma_first_index(s: Seq<Seq<char>>, x: Seq<char>)
    ensures
        s.contains(x) ==> {
            &&& 0 <= first_index(s, x) < s.len()
            &&& s[first_index(s, x)] == x
            &&& forall|j: int| 0 <= j < first_index(s, x) ==> s[j] != x
        },
        !s.contains(x) ==> first_index(s, x) == -1,
    decreases s.len(),
{
    if s.len() == 0 {
    } else if s[0] == x {
        assert(s.contains(x));
    } else {
        lemma_first_index(s.drop_first(), x);
        let t = s.drop_first();
        if s.contains(x) {
            let w = choose|i: int| 0 <= i < s.len() && s[i] == x;
            assert(t[w - 1] == x);
            assert(t.contains(x));
            assert(forall|j: int| 0 <= j < first_index(s, x) ==> s[j] != x) by {
                assert(forall|j: int| 1 <= j < first_index(s, x) ==> s[j] == t[j - 1]);
            }
        } else {
            assert(!t.contains(x)) by {
                if t.contains(x) {
                    let i = choose|i: int| 0 <= i < t.len() && t[i] == x;
                    assert(s[i + 1] == x);
                }
            }
        }
    }
}

/// The member that drives after `cur`, by wrap-around order; `None` when the
/// rotation has fewer than two members.
pub open spec fn rotation_next(s: Seq<Seq<char>>, cur: Seq<char>) -> Option<Seq<char>>
    recommends
        s.len() >= 2 ==> s.contains(cur),
{
    if s.len() < 2 {
        None
    } else {
        Some(s[(first_index(s, cur) + 1) % (s.len() as int)])
    }
}

/// The member that drove before `cur`; `None` when the rotation has fewer than
/// two members.
pub open spec fn rotation_prev(s: Seq<Seq<char>>, cur: Seq<char>) -> Option<Seq<char>>
    recommends
        s.len() >= 2 ==> s.contains(cur),
{
    if s.len() < 2 {
        None
    } else {
        Some(s[(first_index(s, cur) - 1 + s.len() as int) % (s.len() as int)])
    }
}

/// Membership-idempotent insertion: a present name leaves the list unchanged;
/// otherwise the name lands right after `after` when that is a member, and at
/// the end when `after` is `None` or absent.
pub open spec fn rotation_insert(
    s: Seq<Seq<char>>,
    after: Option<Seq<char>>,
    name: Seq<char>,
) -> Seq<Seq<char>> {
    if s.contains(name) {
        s
    } else {
        match after {
            Some(a) => if s.contains(a) {
                s.insert(first_index(s, a) + 1, name)
            } else {
                s.push(name)
            },
            None => s.push(name),
        }
    }
}

/// Removal of the first occurrence of `name`.
pub open spec fn rotation_remove(s: Seq<Seq<char>>, name: Seq<char>) -> Seq<Seq<char>>
    recommends
        s.contains(name),
{
    s.remove(first_index(s, name))
}

/// No name occurs twice.
pub open spec fn distinct(s: Seq<Seq<char>>) -> bool {
    forall|i: int, j: int| 0 <= i < j < s.len() ==> s[i] != s[j]
}

/// First position of `name` in a vector of names.
fn position_of(v: &Vec<String>, name: &str) -> (r: Option<usize>)
    ensures
        match r {
            Some(i) => {
                &&& 0 <= i < v.deep_view().len()
                &&& v.deep_view()[i as int] == name@
                &&& i as int == first_index(v.deep_view(), name@)
            },
            None => {
                &&& !v.deep_view().contains(name@)
                &&& first_index(v.deep_view(), name@) == -1
            },
        },
{
    let ghost s = v.deep_view();
    let mut i: usize = 0;
    while i < v.len()
        invariant
            i <= v.len(),
            s == v.deep_view(),
            s.len() == v.len(),
            forall|j: int| 0 <= j < i ==> s[j] != name@,
        decreases v.len() - i,
    {
        if str_eq(v[i].as_str(), name) {
            proof {
                assert(s[i as int] == name@);
                assert(s.contains(name@));
                lemma_first_index(s, name@);
            }
            return Some(i);
        }
        proof {
            assert(s[i as int] != name@);
        }
        i = i + 1;
    }
    proof {
        if s.contains(name@) {
            let w = choose|k: int| 0 <= k < s.len() && s[k] == name@;
            assert(s[w] != name@);
        }
        lemma_first_index(s, name@);
    }
    None
}

/// The ordered rotation of participant names. Insertion order is rotation
/// order; a well-formed rotation holds no duplicate names.
#[derive(Clone, Debug)]
pub struct Drivers(Vec<String>);

impl View for Drivers {
    type V = Seq<Seq<char>>;

    closed spec fn view(&self) -> Seq<Seq<char>> {
        self.0.deep_view()
    }
}

impl Drivers {
    pub fn new(drivers: Vec<String>) -> (r: Drivers)
        ensures
            r@ == drivers.deep_view(),
    {
        Drivers(drivers)
    }

    /// An empty rotation.
    pub fn empty() -> (r: Drivers)
        ensures
            r@ == Seq::<Seq<char>>::empty(),
    {
        let v: Vec<String> = Vec::new();
        proof {
            assert(v.deep_view() =~= Seq::<Seq<char>>::empty());
        }
        Drivers(v)
    }

    pub fn contains(&self, name: &str) -> (r: bool)
        ensures
            r == self@.contains(name@),
    {
        position_of(&self.0, name).is_some()
    }

    pub fn len(&self) -> (r: usize)
        ensures
            r == self@.len(),
    {
        self.0.len()
    }

    /// Inserts `name` right after `after` (or at the end), unless it is
    /// already a member.
    pub fn insert(self, after: Option<String>, name: &str) -> (r: Drivers)
        ensures
            r@ == rotation_insert(self@, after.deep_view(), name@),
    {
        let ghost old_view = self@;
        if self.contains(name) {
            return self;
        }
        let mut v = self.0;
        let index: Option<usize> = match &after {
            Some(a) => position_of(&v, a.as_str()),
            None => None,
        };
        match index {
            Some(i) => {
                proof {
                    assert(i < v.len());
                }
                v.insert(i + 1, String::from_str(name));
                proof {
                    let target = old_view.insert(i + 1, name@);
                    assert forall|k: int| 0 <= k < v.deep_view().len() implies v.deep_view()[k]
                        == target[k] by {
                        if k < i + 1 {
                        } else if k == i + 1 {
                        } else {
                        }
                    }
                    assert(v.deep_view() =~= target);
                }
            },
            None => {
                v.push(String::from_str(name));
                proof {
                    assert(v.deep_view() =~= old_view.push(name@));
                }
            },
        }
        Drivers(v)
    }

    /// Who drives after `current`. Calling this for a non-member of a
    /// rotation with two or more names is a caller error.
    pub fn next(&self, current: &str) -> (r: Option<String>)
        requires
            self@.len() >= 2 ==> self@.contains(current@),
        ensures
            r.deep_view() == rotation_next(self@, current@),
    {
        if self.0.len() < 2 {
            return None;
        }
        proof {
            lemma_first_index(self@, current@);
        }
        let i = position_of(&self.0, current).unwrap();
        let next_index = if i + 1 == self.0.len() {
            0
        } else {
            i + 1
        };
        proof {
            let n = self@.len() as int;
            if i + 1 == self@.len() {
                lemma_mod_self_0(n);
            } else {
                lemma_small_mod((i + 1) as nat, self@.len());
            }
            assert(next_index as int == (first_index(self@, current@) + 1) % n);
        }
        Some(self.0[next_index].clone())
    }

    /// Who drove before `current`; the same caller obligation as `next`.
    pub fn prev(&self, current: &str) -> (r: Option<String>)
        requires
            self@.len() >= 2 ==> self@.contains(current@),
        ensures
            r.deep_view() == rotation_prev(self@, current@),
    {
        if self.0.len() < 2 {
            return None;
        }
        proof {
            lemma_first_index(self@, current@);
        }
        let i = position_of(&self.0, current).unwrap();
        let prev_index = if i == 0 {
            self.0.len() - 1
        } else {
            i - 1
        };
        proof {
            let n = self@.len() as int;
            if i == 0 {
                lemma_small_mod((n - 1) as nat, self@.len());
            } else {
                lemma_mod_multiples_vanish(1, i - 1, n);
                lemma_small_mod((i - 1) as nat, self@.len());
            }
            assert(prev_index as int == (first_index(self@, current@) - 1 + n) % n);
        }
        Some(self.0[prev_index].clone())
    }

    /// Removes `name`; calling this for a non-member is a caller error.
    pub fn remove(self, name: &str) -> (r: Drivers)
        requires
            self@.contains(name@),
        ensures
            r@ == rotation_remove(self@, name@),
    {
        let ghost old_view = self@;
        let mut v = self.0;
        proof {
            lemma_first_index(old_view, name@);
        }
        let i = position_of(&v, name).unwrap();
        v.remove(i);
        proof {
            assert(v.deep_view() =~= old_view.remove(i as int));
        }
        Drivers(v)
    }

    /// A fresh rotation with the same view.
    pub fn duplicate(&self) -> (r: Drivers)
        ensures
            r@ == self@,
    {
        Drivers::new(self.all())
    }

    /// The rotation order, as a fresh vector of names.
    pub fn all(&self) -> (r: Vec<String>)
        ensures
            r.deep_view() == self@,
    {
        let mut r: Vec<String> = Vec::new();
        let mut i: usize = 0;
        while i < self.0.len()
            invariant
                i <= self.0.len(),
                r.len() == i,
                forall|j: int| 0 <= j < i ==> r.deep_view()[j] == self@[j],
            decreases self.0.len() - i,
        {
            r.push(self.0[i].clone());
            i = i + 1;
        }
        proof {
            assert(r.deep_view() =~= self@);
        }
        r
    }
}

impl Default for Drivers {
    fn default() -> (r: Drivers)
        ensures
            r@ == Seq::<Seq<char>>::empty(),
    {
        Drivers::empty()
    }
}

/// One hand-off: the member after `cur`, for a rotation of two or more.
pub open spec fn rotation_step(s: Seq<Seq<char>>, cur: Seq<char>) -> Seq<char>
    recommends
        s.len() >= 2,
        s.contains(cur),
{
    s[(first_index(s, cur) + 1) % (s.len() as int)]
}

/// `k` hand-offs in a row, starting from `x`.
pub open spec fn rotation_iterate(s: Seq<Seq<char>>, x: Seq<char>, k: nat) -> Seq<char>
    decreases k,
{
    if k == 0 {
        x
    } else {
        rotation_step(s, rotation_iterate(s, x, (k - 1) as nat))
    }
}

/// In a duplicate-free rotation, the first occurrence of the member at `j` is
/// `j` itself.
proof fn lemma_first_index_distinct(s: Seq<Seq<char>>, j: int)
    requires
        distinct(s),
        0 <= j < s.len(),
    ensures
        first_index(s, s[j]) == j,
{
    assert(s.contains(s[j]));
    lemma_first_index(s, s[j]);
    let fi = first_index(s, s[j]);
    if fi < j {
        assert(s[fi] == s[j]);
        assert(false);
    }
    if fi > j {
        assert(s[j] != s[j]);
        assert(false);
    }
}

/// Where `k` hand-offs land: `k` places beyond `x`, wrapping around.
proof fn lemma_rotation_iterate_index(s: Seq<Seq<char>>, x: Seq<char>, k: nat)
    requires
        distinct(s),
        s.len() >= 2,
        s.contains(x),
    ensures
        rotation_iterate(s, x, k) == s[(first_index(s, x) + k) % (s.len() as int)],
    decreases k,
{
    let n = s.len() as int;
    let fi = first_index(s, x);
    lemma_first_index(s, x);
    if k == 0 {
        lemma_small_mod(fi as nat, s.len());
    } else {
        lemma_rotation_iterate_index(s, x, (k - 1) as nat);
        let p = (fi + k - 1) % n;
        lemma_mod_bound(fi + k - 1, n);
        lemma_first_index_distinct(s, p);
        assert(rotation_iterate(s, x, k) == s[(p + 1) % n]);
        lemma_add_mod_noop(fi + k - 1, 1, n);
        lemma_small_mod(1nat, s.len());
        assert((p + 1int % n) % n == (fi + k) % n);
        assert((p + 1) % n == (fi + k) % n);
    }
}

/// Full rotation closure: in a duplicate-free rotation of `n >= 2` members,
/// `n` hand-offs lead back to the start, and no smaller positive number of
/// hand-offs does.
pub proof fn lemma_rotation_closure(s: Seq<Seq<char>>, x: Seq<char>)
    requires
        distinct(s),
        s.len() >= 2,
        s.contains(x),
    ensures
        rotation_iterate(s, x, s.len()) == x,
        forall|k: nat| 0 < k < s.len() ==> rotation_iterate(s, x, k) != x,
{
    let n = s.len() as int;
    let fi = first_index(s, x);
    lemma_first_index(s, x);
    lemma_rotation_iterate_index(s, x, s.len());
    lemma_mod_multiples_vanish(1, fi, n);
    lemma_small_mod(fi as nat, s.len());
    assert(rotation_iterate(s, x, s.len()) == x);
    assert forall|k: nat| 0 < k < s.len() implies rotation_iterate(s, x, k) != x by {
        lemma_rotation_iterate_index(s, x, k);
        let p = (fi + k) % n;
        lemma_mod_bound(fi + k, n);
        if fi + k < n {
            lemma_small_mod((fi + k) as nat, s.len());
            assert(p != fi);
        } else {
            lemma_mod_multiples_vanish(1, fi + k - n, n);
            lemma_small_mod((fi + k - n) as nat, s.len());
            assert(p == fi + k - n);
            assert(p != fi);
        }
        assert(s[p] != x) by {
            if s[p] == x {
                lemma_first_index_distinct(s, p);
            }
        }
    }
}

/// Solo or empty rotations have no hand-off: `next` is `None` for fewer than
/// two members.
pub proof fn lemma_solo_rotation(s: Seq<Seq<char>>, cur: Seq<char>)
    requires
        s.len() < 2,
    ensures
        rotation_next(s, cur) is None,
        rotation_prev(s, cur) is None,
{
}

/// Whatever `after` says, the inserted name is a member afterwards.
pub proof fn lemma_insert_member(s: Seq<Seq<char>>, after: Option<Seq<char>>, name: Seq<char>)
    ensures
        rotation_insert(s, after, name).contains(name),
{
    if s.contains(name) {
    } else {
        match after {
            Some(a) => {
                if s.contains(a) {
                    lemma_first_index(s, a);
                    let r = s.insert(first_index(s, a) + 1, name);
                    assert(r[first_index(s, a) + 1] == name);
                } else {
                    assert(s.push(name)[s.len() as int] == name);
                }
            },
            None => {
                assert(s.push(name)[s.len() as int] == name);
            },
        }
    }
}

/// Inserting a name already present changes nothing, whatever `after` says.
pub proof fn lemma_insert_idempotent(s: Seq<Seq<char>>, after: Option<Seq<char>>, name: Seq<char>)
    requires
        s.contains(name),
    ensures
        rotation_insert(s, after, name) == s,
{
}

/// Inserting after the last member appends at the end.
pub proof fn lemma_insert_after_last(s: Seq<Seq<char>>, name: Seq<char>)
    requires
        distinct(s),
        s.len() >= 1,
        !s.contains(name),
    ensures
        rotation_insert(s, Some(s.last()), name) == s.push(name),
{
    assert(s.contains(s.last()));
    lemma_first_index_distinct(s, s.len() - 1);
    assert(s.insert(s.len() as int, name) =~= s.push(name));
}

/// Inserting after the first member places the name second, shifting the rest.
pub proof fn lemma_insert_after_first(s: Seq<Seq<char>>, name: Seq<char>)
    requires
        s.len() >= 1,
        !s.contains(name),
    ensures
        rotation_insert(s, Some(s[0]), name).len() == s.len() + 1,
        rotation_insert(s, Some(s[0]), name)[0] == s[0],
        rotation_insert(s, Some(s[0]), name)[1] == name,
        forall|j: int|
            1 <= j < s.len() ==> rotation_insert(s, Some(s[0]), name)[j + 1] == #[trigger] s[j],
{
    assert(s.contains(s[0]));
    assert(first_index(s, s[0]) == 0);
}

/// Removing a member and re-inserting it with no `after` restores membership,
/// but at the end: the pair is no round trip for a member that was not last.
pub proof fn lemma_remove_insert_relocates(s: Seq<Seq<char>>, name: Seq<char>)
    requires
        distinct(s),
        s.contains(name),
    ensures
        ({
            let r = rotation_insert(rotation_remove(s, name), None, name);
            &&& r == rotation_remove(s, name).push(name)
            &&& r.contains(name)
            &&& r.last() == name
            &&& first_index(s, name) < s.len() - 1 ==> r != s
        }),
{
    lemma_first_index(s, name);
    let fi = first_index(s, name);
    let t = s.remove(fi);
    assert(!t.contains(name)) by {
        if t.contains(name) {
            let k = choose|k: int| 0 <= k < t.len() && t[k] == name;
            if k < fi {
                assert(s[k] == name);
            } else {
                assert(s[k + 1] == name);
            }
        }
    }
    let r = t.push(name);
    assert(r.last() == name);
    assert(r.contains(name)) by {
        assert(r[r.len() - 1] == name);
    }
    if fi < s.len() - 1 {
        assert(t[fi] == s[fi + 1]);
        assert(s[fi + 1] != name);
        assert(r[fi] == t[fi]);
        if r == s {
            assert(r[fi] == s[fi]);
            assert(false);
        }
    }
}

} // verus!

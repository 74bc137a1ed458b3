//! The mounts of a container scenario: aliases mapped to paths in the
//! container, each alias once and in ascending order, as an ordered map
//! keeps them.

use crate::text::chars_of;
use vstd::prelude::*;

verus! {

/// Whether `a` comes before `b` from position `i` on, comparing characters
/// by their code points and a proper prefix before its extensions (the
/// order of `String`, whose UTF-8 bytes order as the code points do).
pub open spec fn text_less_from(a: Seq<char>, b: Seq<char>, i: nat) -> bool
    decreases a.len() - i,
{
    if i >= a.len() {
        i < b.len()
    } else if i >= b.len() {
        false
    } else if a[i as int] != b[i as int] {
        (a[i as int] as int) < (b[i as int] as int)
    } else {
        text_less_from(a, b, i + 1)
    }
}

/// Whether the text `a` orders before the text `b`.
pub open spec fn text_less(a: Seq<char>, b: Seq<char>) -> bool {
    text_less_from(a, b, 0)
}

proof fn lemma_less_irreflexive(a: Seq<char>, i: nat)
    ensures
        !text_less_from(a, a, i),
    decreases a.len() - i,
{
    if i < a.len() {
        lemma_less_irreflexive(a, i + 1);
    }
}

proof fn lemma_less_transitive(a: Seq<char>, b: Seq<char>, c: Seq<char>, i: nat)
    requires
        text_less_from(a, b, i),
        text_less_from(b, c, i),
    ensures
        text_less_from(a, c, i),
    decreases a.len() - i,
{
    if i < a.len() && i < b.len() && i < c.len() && a[i as int] == b[i as int] && b[i as int]
        == c[i as int] {
        lemma_less_transitive(a, b, c, i + 1);
    }
}

proof fn lemma_less_total(a: Seq<char>, b: Seq<char>, i: nat)
    requires
        i <= a.len(),
        i <= b.len(),
        forall|k: int| 0 <= k < i ==> a[k] == b[k],
        !text_less_from(a, b, i),
        !text_less_from(b, a, i),
    ensures
        a == b,
    decreases a.len() - i,
{
    if i < a.len() && i < b.len() {
        if a[i as int] == b[i as int] {
            lemma_less_total(a, b, i + 1);
        } else {
            assert((a[i as int] as int) != (b[i as int] as int));
        }
    } else {
        assert(a =~= b);
    }
}

/// Whether the aliases of `m` are in strictly ascending order, so that each
/// occurs once.
pub open spec fn aliases_ascending(m: Seq<(Seq<char>, Seq<char>)>) -> bool {
    forall|i: int, j: int| 0 <= i < j < m.len() ==> text_less(#[trigger] m[i].0, #[trigger] m[j].0)
}

/// The first position from `k` on whose alias does not come before `alias`.
pub open spec fn insert_position(m: Seq<(Seq<char>, Seq<char>)>, alias: Seq<char>, k: int) -> int
    decreases m.len() - k,
{
    if k < 0 || k >= m.len() {
        m.len() as int
    } else if !text_less(m[k].0, alias) {
        k
    } else {
        insert_position(m, alias, k + 1)
    }
}

/// `m` with `alias` mapped to `path`: the path replaces the one the alias
/// had, or the pair goes where the order puts it.
pub open spec fn mount_insert(m: Seq<(Seq<char>, Seq<char>)>, alias: Seq<char>, path: Seq<char>) -> Seq<
    (Seq<char>, Seq<char>),
> {
    let k = insert_position(m, alias, 0);
    if k < m.len() && m[k].0 == alias {
        m.update(k, (alias, path))
    } else {
        m.insert(k, (alias, path))
    }
}

/// The mounts made of `pairs`, inserted in order: a later pair for an alias
/// replaces an earlier one.
pub open spec fn mounts_from_pairs(pairs: Seq<(Seq<char>, Seq<char>)>) -> Seq<
    (Seq<char>, Seq<char>),
>
    decreases pairs.len(),
{
    if pairs.len() == 0 {
        seq![]
    } else {
        mount_insert(mounts_from_pairs(pairs.drop_last()), pairs.last().0, pairs.last().1)
    }
}

proof fn lemma_insert_position(m: Seq<(Seq<char>, Seq<char>)>, alias: Seq<char>, k: int)
    requires
        0 <= k <= m.len(),
        forall|j: int| 0 <= j < k ==> text_less(#[trigger] m[j].0, alias),
    ensures
        k <= insert_position(m, alias, k) <= m.len(),
        forall|j: int|
            0 <= j < insert_position(m, alias, k) ==> text_less(#[trigger] m[j].0, alias),
        insert_position(m, alias, k) < m.len() ==> !text_less(
            m[insert_position(m, alias, k)].0,
            alias,
        ),
    decreases m.len() - k,
{
    if k < m.len() && text_less(m[k].0, alias) {
        lemma_insert_position(m, alias, k + 1);
    }
}

/// Inserting keeps the aliases ascending.
proof fn lemma_insert_keeps_order(m: Seq<(Seq<char>, Seq<char>)>, alias: Seq<char>, path: Seq<char>)
    requires
        aliases_ascending(m),
    ensures
        aliases_ascending(mount_insert(m, alias, path)),
{
    lemma_insert_position(m, alias, 0);
    let k = insert_position(m, alias, 0);
    let r = mount_insert(m, alias, path);
    if k < m.len() && m[k].0 == alias {
        assert forall|i: int, j: int| 0 <= i < j < r.len() implies text_less(
            #[trigger] r[i].0,
            #[trigger] r[j].0,
        ) by {
            assert(r[i].0 == m[i].0 && r[j].0 == m[j].0);
        }
    } else {
        if k < m.len() && !text_less(alias, m[k].0) {
            lemma_less_total(m[k].0, alias, 0);
        }
        assert forall|i: int, j: int| 0 <= i < j < r.len() implies text_less(
            #[trigger] r[i].0,
            #[trigger] r[j].0,
        ) by {
            if j < k {
                assert(r[i] == m[i] && r[j] == m[j]);
            } else if j == k {
                assert(r[i] == m[i]);
                assert(r[j].0 == alias);
            } else if i < k {
                assert(r[i] == m[i] && r[j] == m[j - 1]);
                if j - 1 > k {
                    assert(text_less(m[k].0, m[j - 1].0));
                    lemma_less_transitive(alias, m[k].0, m[j - 1].0, 0);
                }
                lemma_less_transitive(m[i].0, alias, m[j - 1].0, 0);
            } else if i == k {
                assert(r[i].0 == alias);
                assert(r[j] == m[j - 1]);
                if j - 1 > k {
                    assert(text_less(m[k].0, m[j - 1].0));
                    lemma_less_transitive(alias, m[k].0, m[j - 1].0, 0);
                }
            } else {
                assert(r[i] == m[i - 1] && r[j] == m[j - 1]);
            }
        }
    }
}

/// The mounts built from any pairs have their aliases ascending, each once.
pub proof fn lemma_mounts_ascending(pairs: Seq<(Seq<char>, Seq<char>)>)
    ensures
        aliases_ascending(mounts_from_pairs(pairs)),
    decreases pairs.len(),
{
    if pairs.len() > 0 {
        lemma_mounts_ascending(pairs.drop_last());
        lemma_insert_keeps_order(
            mounts_from_pairs(pairs.drop_last()),
            pairs.last().0,
            pairs.last().1,
        );
    }
}

/// Whether `a` orders before `b`.
pub fn text_less_exec(a: &str, b: &str) -> (r: bool)
    ensures
        r == text_less(a@, b@),
{
    let av = chars_of(a);
    let bv = chars_of(b);
    let mut i: usize = 0;
    while i < av.len() && i < bv.len() && av[i] == bv[i]
        invariant
            i <= av@.len(),
            i <= bv@.len(),
            av@ == a@,
            bv@ == b@,
            text_less(a@, b@) == text_less_from(a@, b@, i as nat),
        decreases av.len() - i,
    {
        i = i + 1;
    }
    if i >= av.len() {
        i < bv.len()
    } else if i >= bv.len() {
        false
    } else {
        av[i] < bv[i]
    }
}

/// Mounts of a scenario: aliases mapped to container paths, each alias
/// once, in ascending order of alias.
#[derive(Debug)]
pub struct Mounts {
    entries: Vec<(String, String)>,
}

impl View for Mounts {
    type V = Seq<(Seq<char>, Seq<char>)>;

    closed spec fn view(&self) -> Seq<(Seq<char>, Seq<char>)> {
        self.entries@.map_values(|p: (String, String)| (p.0@, p.1@))
    }
}

impl Mounts {
    #[verifier::type_invariant]
    closed spec fn ascending(self) -> bool {
        aliases_ascending(self@)
    }

    /// The mounts of `pairs`, taken in order: a later pair for an alias
    /// replaces an earlier one, and the aliases end up in ascending order.
    pub fn from_pairs(pairs: Vec<(String, String)>) -> (r: Self)
        ensures
            r@ == mounts_from_pairs(pairs@.map_values(|p: (String, String)| (p.0@, p.1@))),
            aliases_ascending(r@),
    {
        let ghost pv = pairs@.map_values(|p: (String, String)| (p.0@, p.1@));
        let mut entries: Vec<(String, String)> = Vec::new();
        let mut i: usize = 0;
        while i < pairs.len()
            invariant
                i <= pairs@.len(),
                pv == pairs@.map_values(|p: (String, String)| (p.0@, p.1@)),
                entries@.map_values(|p: (String, String)| (p.0@, p.1@)) == mounts_from_pairs(
                    pv.take(i as int),
                ),
            decreases pairs.len() - i,
        {
            let ghost m = entries@.map_values(|p: (String, String)| (p.0@, p.1@));
            let alias = pairs[i].0.clone();
            let path = pairs[i].1.clone();
            assert(pv.take(i + 1).drop_last() =~= pv.take(i as int));
            assert(pv.take(i + 1).last() == (alias@, path@));
            let mut k: usize = 0;
            while k < entries.len() && text_less_exec(entries[k].0.as_str(), alias.as_str())
                invariant
                    k <= entries@.len(),
                    m == entries@.map_values(|p: (String, String)| (p.0@, p.1@)),
                    insert_position(m, alias@, 0) == insert_position(m, alias@, k as int),
                decreases entries.len() - k,
            {
                assert(m[k as int].0 == entries@[k as int].0@);
                k = k + 1;
            }
            proof {
                if k < entries@.len() {
                    assert(m[k as int].0 == entries@[k as int].0@);
                }
            }
            let same = k < entries.len() && entries[k].0 == alias;
            if same {
                entries.set(k, (alias, path));
                assert(entries@.map_values(|p: (String, String)| (p.0@, p.1@)) =~= m.update(
                    k as int,
                    pv.take(i + 1).last(),
                ));
            } else {
                proof {
                    if k < entries@.len() {
                        assert(m[k as int].0 != alias@);
                    }
                }
                entries.insert(k, (alias, path));
                assert(entries@.map_values(|p: (String, String)| (p.0@, p.1@)) =~= m.insert(
                    k as int,
                    pv.take(i + 1).last(),
                ));
            }
            i = i + 1;
        }
        assert(pv.take(pairs@.len() as int) =~= pv);
        proof {
            lemma_mounts_ascending(pv);
        }
        Mounts { entries }
    }

    /// The alias and container path of each mount, in ascending order of
    /// alias.
    pub fn entries(&self) -> (r: &Vec<(String, String)>)
        ensures
            r@.map_values(|p: (String, String)| (p.0@, p.1@)) == self@,
            aliases_ascending(self@),
    {
        proof {
            use_type_invariant(self);
        }
        &self.entries
    }
}

} // verus!

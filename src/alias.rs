use vstd::prelude::*;

verus! {

/// Lexicographic order on texts, character by character (the order of `String`).
pub open spec fn text_lt(a: Seq<char>, b: Seq<char>) -> bool
    decreases a.len(),
{
    if a.len() == 0 {
        b.len() > 0
    } else if b.len() == 0 {
        false
    } else if a[0] != b[0] {
        a[0] < b[0]
    } else {
        text_lt(a.drop_first(), b.drop_first())
    }
}

proof fn lemma_text_lt_irreflexive(a: Seq<char>)
    ensures
        !text_lt(a, a),
    decreases a.len(),
{
    if a.len() > 0 {
        lemma_text_lt_irreflexive(a.drop_first());
    }
}

proof fn lemma_text_lt_total(a: Seq<char>, b: Seq<char>)
    ensures
        a == b || text_lt(a, b) || text_lt(b, a),
        !(text_lt(a, b) && text_lt(b, a)),
    decreases a.len(),
{
    if a.len() > 0 && b.len() > 0 {
        lemma_text_lt_total(a.drop_first(), b.drop_first());
        if a[0] == b[0] && a.drop_first() == b.drop_first() {
            assert(a =~= seq![a[0]] + a.drop_first());
            assert(b =~= seq![b[0]] + b.drop_first());
        }
    } else if a.len() == 0 && b.len() == 0 {
        assert(a =~= b);
    }
}

proof fn lemma_text_lt_transitive(a: Seq<char>, b: Seq<char>, c: Seq<char>)
    requires
        text_lt(a, b),
        text_lt(b, c),
    ensures
        text_lt(a, c),
    decreases a.len(),
{
    if a.len() > 0 && b.len() > 0 && c.len() > 0 {
        if a[0] == b[0] && b[0] == c[0] {
            lemma_text_lt_transitive(a.drop_first(), b.drop_first(), c.drop_first());
        }
    }
}

/// Compares two texts in lexicographic order.
pub fn text_less(a: &str, b: &str) -> (r: bool)
    ensures
        r == text_lt(a@, b@),
{
    let n = a.unicode_len();
    let m = b.unicode_len();
    let mut i: usize = 0;
    assert(a@.subrange(0, n as int) =~= a@ && b@.subrange(0, m as int) =~= b@);
    while i < n && i < m && a.get_char(i) == b.get_char(i)
        invariant
            n == a@.len(),
            m == b@.len(),
            i <= n,
            i <= m,
            text_lt(a@, b@) == text_lt(a@.subrange(i as int, n as int), b@.subrange(i as int, m as int)),
        decreases n - i,
    {
        proof {
            let x = a@.subrange(i as int, n as int);
            let y = b@.subrange(i as int, m as int);
            assert(x.drop_first() =~= a@.subrange(i as int + 1, n as int));
            assert(y.drop_first() =~= b@.subrange(i as int + 1, m as int));
        }
        i = i + 1;
    }
    if i == n {
        i < m
    } else if i == m {
        false
    } else {
        a.get_char(i) < b.get_char(i)
    }
}

/// Texts in strictly increasing order.
pub open spec fn strictly_sorted(e: Seq<(String, String)>) -> bool {
    forall|i: int, j: int| 0 <= i < j < e.len() ==> text_lt(#[trigger] e[i].0@, #[trigger] e[j].0@)
}

/// The map that a list of distinct-keyed entries denotes.
pub open spec fn alias_map_of(e: Seq<(String, String)>) -> Map<Seq<char>, Seq<char>>
    decreases e.len(),
{
    if e.len() == 0 {
        Map::empty()
    } else {
        alias_map_of(e.drop_last()).insert(e.last().0@, e.last().1@)
    }
}

proof fn lemma_sorted_prefix(e: Seq<(String, String)>)
    requires
        strictly_sorted(e),
        e.len() > 0,
    ensures
        strictly_sorted(e.drop_last()),
        !alias_map_of(e.drop_last()).contains_key(e.last().0@),
{
    let d = e.drop_last();
    assert forall|i: int, j: int| 0 <= i < j < d.len() implies text_lt(
        #[trigger] d[i].0@,
        #[trigger] d[j].0@,
    ) by {
        assert(d[i] == e[i] && d[j] == e[j]);
    }
    lemma_alias_dom(d, e.last().0@);
    if alias_map_of(d).contains_key(e.last().0@) {
        let k = choose|k: int| 0 <= k < d.len() && #[trigger] d[k].0@ == e.last().0@;
        assert(d[k] == e[k]);
        assert(text_lt(e[k].0@, e[e.len() - 1].0@));
        lemma_text_lt_irreflexive(e.last().0@);
    }
}

proof fn lemma_alias_dom(e: Seq<(String, String)>, k: Seq<char>)
    ensures
        alias_map_of(e).contains_key(k) <==> exists|i: int| 0 <= i < e.len() && #[trigger] e[i].0@ == k,
    decreases e.len(),
{
    if e.len() > 0 {
        lemma_alias_dom(e.drop_last(), k);
        if alias_map_of(e).contains_key(k) && k != e.last().0@ {
            let i = choose|i: int| 0 <= i < e.drop_last().len() && #[trigger] e.drop_last()[i].0@ == k;
            assert(e[i].0@ == k);
        }
        if exists|i: int| 0 <= i < e.len() && #[trigger] e[i].0@ == k {
            let i = choose|i: int| 0 <= i < e.len() && #[trigger] e[i].0@ == k;
            if i < e.len() - 1 {
                assert(e.drop_last()[i].0@ == k);
            }
        }
    }
}

proof fn lemma_alias_index(e: Seq<(String, String)>, i: int)
    requires
        strictly_sorted(e),
        0 <= i < e.len(),
    ensures
        alias_map_of(e).contains_key(e[i].0@),
        alias_map_of(e)[e[i].0@] == e[i].1@,
    decreases e.len(),
{
    lemma_sorted_prefix(e);
    if i < e.len() - 1 {
        let d = e.drop_last();
        lemma_alias_index(d, i);
        assert(d[i] == e[i]);
        assert(text_lt(e[i].0@, e[e.len() - 1].0@));
        lemma_text_lt_irreflexive(e[i].0@);
    }
}

proof fn lemma_alias_insert(e: Seq<(String, String)>, j: int, x: (String, String))
    requires
        strictly_sorted(e),
        0 <= j <= e.len(),
        forall|k: int| 0 <= k < j ==> text_lt(#[trigger] e[k].0@, x.0@),
        forall|k: int| j <= k < e.len() ==> text_lt(x.0@, #[trigger] e[k].0@),
    ensures
        strictly_sorted(e.insert(j, x)),
        alias_map_of(e.insert(j, x)) == alias_map_of(e).insert(x.0@, x.1@),
    decreases e.len(),
{
    let n = e.insert(j, x);
    assert forall|a: int, b: int| 0 <= a < b < n.len() implies text_lt(
        #[trigger] n[a].0@,
        #[trigger] n[b].0@,
    ) by {
        if b < j {
            assert(n[a] == e[a] && n[b] == e[b]);
        } else if b == j {
            assert(n[a] == e[a]);
        } else if a < j {
            assert(n[a] == e[a] && n[b] == e[b - 1]);
            lemma_text_lt_transitive(e[a].0@, x.0@, e[b - 1].0@);
        } else if a == j {
            assert(n[b] == e[b - 1]);
        } else {
            assert(n[a] == e[a - 1] && n[b] == e[b - 1]);
        }
    }
    if j == e.len() {
        assert(n.drop_last() =~= e);
        lemma_alias_dom(e, x.0@);
    } else {
        let d = e.drop_last();
        lemma_sorted_prefix(e);
        assert forall|k: int| j <= k < d.len() implies text_lt(x.0@, #[trigger] d[k].0@) by {
            assert(d[k] == e[k]);
        }
        assert forall|k: int| 0 <= k < j implies text_lt(#[trigger] d[k].0@, x.0@) by {
            assert(d[k] == e[k]);
        }
        lemma_alias_insert(d, j, x);
        assert(n.drop_last() =~= d.insert(j, x));
        assert(n.last() == e.last());
        assert(text_lt(x.0@, e[e.len() - 1].0@));
        lemma_text_lt_irreflexive(x.0@);
        assert(alias_map_of(n) =~= alias_map_of(e).insert(x.0@, x.1@));
    }
}

proof fn lemma_alias_update(e: Seq<(String, String)>, i: int, x: (String, String))
    requires
        strictly_sorted(e),
        0 <= i < e.len(),
        e[i].0@ == x.0@,
    ensures
        strictly_sorted(e.update(i, x)),
        alias_map_of(e.update(i, x)) == alias_map_of(e).insert(x.0@, x.1@),
    decreases e.len(),
{
    let u = e.update(i, x);
    assert forall|a: int, b: int| 0 <= a < b < u.len() implies text_lt(
        #[trigger] u[a].0@,
        #[trigger] u[b].0@,
    ) by {
        assert(u[a].0@ == e[a].0@ && u[b].0@ == e[b].0@);
    }
    lemma_sorted_prefix(e);
    if i == e.len() - 1 {
        assert(u.drop_last() == e.drop_last());
        assert(alias_map_of(u) =~= alias_map_of(e).insert(x.0@, x.1@));
    } else {
        let d = e.drop_last();
        assert(u.drop_last() == d.update(i, x));
        assert(d[i] == e[i]);
        lemma_alias_update(d, i, x);
        assert(u.last() == e.last());
        assert(text_lt(e[i].0@, e[e.len() - 1].0@));
        lemma_text_lt_irreflexive(e[i].0@);
        assert(alias_map_of(u) =~= alias_map_of(e).insert(x.0@, x.1@));
    }
}

proof fn lemma_alias_remove(e: Seq<(String, String)>, i: int)
    requires
        strictly_sorted(e),
        0 <= i < e.len(),
    ensures
        strictly_sorted(e.remove(i)),
        alias_map_of(e.remove(i)) == alias_map_of(e).remove(e[i].0@),
    decreases e.len(),
{
    let r = e.remove(i);
    assert forall|a: int, b: int| 0 <= a < b < r.len() implies text_lt(
        #[trigger] r[a].0@,
        #[trigger] r[b].0@,
    ) by {
        let a2 = if a < i { a } else { a + 1 };
        let b2 = if b < i { b } else { b + 1 };
        assert(r[a] == e[a2] && r[b] == e[b2]);
    }
    lemma_sorted_prefix(e);
    if i == e.len() - 1 {
        assert(r == e.drop_last());
        assert(alias_map_of(r) =~= alias_map_of(e).remove(e[i].0@));
    } else {
        let d = e.drop_last();
        assert(r.drop_last() == d.remove(i));
        assert(d[i] == e[i]);
        lemma_alias_remove(d, i);
        assert(r.last() == e.last());
        assert(text_lt(e[i].0@, e[e.len() - 1].0@));
        lemma_text_lt_irreflexive(e[i].0@);
        assert(alias_map_of(r) =~= alias_map_of(e).remove(e[i].0@));
    }
}

proof fn lemma_alias_len(e: Seq<(String, String)>)
    requires
        strictly_sorted(e),
    ensures
        alias_map_of(e).len() == e.len(),
        alias_map_of(e).dom().finite(),
    decreases e.len(),
{
    if e.len() > 0 {
        lemma_sorted_prefix(e);
        lemma_alias_len(e.drop_last());
    }
}

/// Command aliases: names mapped to command lines, kept in name order.
#[derive(Debug)]
pub struct AliasMap {
    entries: Vec<(String, String)>,
}

/// Why an alias operation was refused.
#[derive(Debug, Clone, PartialEq, Eq)]
pub enum AliasError {
    /// No alias has this name.
    NotFound { name: String },
    /// The file to import held no alias.
    NothingToImport,
}

impl View for AliasMap {
    type V = Map<Seq<char>, Seq<char>>;

    closed spec fn view(&self) -> Map<Seq<char>, Seq<char>> {
        alias_map_of(self.entries@)
    }
}

impl AliasMap {
    #[verifier::type_invariant]
    spec fn inv(self) -> bool {
        strictly_sorted(self.entries@)
    }

    /// No alias.
    pub fn new() -> (r: AliasMap)
        ensures
            r@ == Map::<Seq<char>, Seq<char>>::empty(),
    {
        AliasMap { entries: Vec::new() }
    }

    /// Where `name` is or would go: the first entry not before it.
    fn position(&self, name: &str) -> (r: usize)
        ensures
            strictly_sorted(self.entries@),
            r <= self.entries@.len(),
            forall|k: int| 0 <= k < r ==> text_lt(#[trigger] self.entries@[k].0@, name@),
            r < self.entries@.len() ==> !text_lt(self.entries@[r as int].0@, name@),
            forall|k: int| r < k < self.entries@.len() ==> text_lt(name@, #[trigger] self.entries@[k].0@),
    {
        proof {
            use_type_invariant(self);
        }
        let mut i: usize = 0;
        while i < self.entries.len() && text_less(self.entries[i].0.as_str(), name)
            invariant
                strictly_sorted(self.entries@),
                i <= self.entries@.len(),
                forall|k: int| 0 <= k < i ==> text_lt(#[trigger] self.entries@[k].0@, name@),
            decreases self.entries@.len() - i,
        {
            i = i + 1;
        }
        proof {
            if i < self.entries@.len() {
                let ei = self.entries@[i as int].0@;
                assert forall|k: int| i < k < self.entries@.len() implies text_lt(
                    name@,
                    #[trigger] self.entries@[k].0@,
                ) by {
                    let ek = self.entries@[k].0@;
                    assert(text_lt(ei, ek));
                    lemma_text_lt_total(ei, name@);
                    if ei != name@ {
                        lemma_text_lt_transitive(name@, ei, ek);
                    }
                }
            }
        }
        i
    }

    /// Number of aliases.
    pub fn len(&self) -> (r: usize)
        ensures
            r == self@.len(),
    {
        proof {
            use_type_invariant(self);
            lemma_alias_len(self.entries@);
        }
        self.entries.len()
    }

    /// Whether there is no alias.
    pub fn is_empty(&self) -> (r: bool)
        ensures
            r == (self@ == Map::<Seq<char>, Seq<char>>::empty()),
    {
        proof {
            use_type_invariant(self);
            if self.entries@.len() > 0 {
                lemma_alias_index(self.entries@, 0);
                assert(self@.contains_key(self.entries@[0].0@));
            } else {
                assert(self@ =~= Map::<Seq<char>, Seq<char>>::empty());
            }
        }
        self.entries.len() == 0
    }

    /// Sets `name` to run `command`, replacing an earlier alias of that name.
    pub fn set(&mut self, name: String, command: String)
        ensures
            final(self)@ == old(self)@.insert(name@, command@),
    {
        let j = self.position(name.as_str());
        let found = j < self.entries.len() && !text_less(name.as_str(), self.entries[j].0.as_str());
        let mut e: Vec<(String, String)> = Vec::new();
        std::mem::swap(&mut e, &mut self.entries);
        if found {
            proof {
                lemma_text_lt_total(e@[j as int].0@, name@);
                lemma_alias_update(e@, j as int, (name, command));
            }
            e.set(j, (name, command));
        } else {
            proof {
                if j < e@.len() {
                    assert(text_lt(name@, e@[j as int].0@));
                }
                lemma_alias_insert(e@, j as int, (name, command));
            }
            e.insert(j, (name, command));
        }
        self.entries = e;
    }

    /// Removes the alias `name`; says whether there was one.
    pub fn remove(&mut self, name: &str) -> (r: bool)
        ensures
            final(self)@ == old(self)@.remove(name@),
            r == old(self)@.contains_key(name@),
    {
        let j = self.position(name);
        let found = j < self.entries.len() && !text_less(name, self.entries[j].0.as_str());
        if found {
            let mut e: Vec<(String, String)> = Vec::new();
            std::mem::swap(&mut e, &mut self.entries);
            proof {
                lemma_text_lt_total(e@[j as int].0@, name@);
                lemma_alias_index(e@, j as int);
                lemma_alias_remove(e@, j as int);
            }
            let _ = e.remove(j);
            self.entries = e;
            true
        } else {
            proof {
                lemma_alias_dom(self.entries@, name@);
                if self@.contains_key(name@) {
                    let k = choose|k: int|
                        0 <= k < self.entries@.len() && #[trigger] self.entries@[k].0@ == name@;
                    lemma_text_lt_irreflexive(name@);
                    if j < self.entries@.len() {
                        lemma_text_lt_total(self.entries@[j as int].0@, name@);
                    }
                }
                assert(self@.remove(name@) =~= self@);
            }
            false
        }
    }

    /// The aliases in name order.
    pub fn entries(&self) -> (r: &Vec<(String, String)>)
        ensures
            strictly_sorted(r@),
            alias_map_of(r@) == self@,
    {
        proof {
            use_type_invariant(self);
        }
        &self.entries
    }
}

/// The aliases after deleting `names` in order, or the first name that is missing
/// by then (a name given twice is missing the second time).
pub open spec fn after_deletes(m: Map<Seq<char>, Seq<char>>, names: Seq<Seq<char>>) -> Result<
    Map<Seq<char>, Seq<char>>,
    Seq<char>,
>
    decreases names.len(),
{
    if names.len() == 0 {
        Ok(m)
    } else if !m.contains_key(names[0]) {
        Err(names[0])
    } else {
        after_deletes(m.remove(names[0]), names.drop_first())
    }
}

/// Deletes every alias in `names`. When one is missing, fails with its name; the
/// caller then keeps what was stored.
pub fn delete_aliases(aliases: &mut AliasMap, names: &Vec<String>) -> (r: Result<(), AliasError>)
    ensures
        match after_deletes(old(aliases)@, names@.map_values(|n: String| n@)) {
            Ok(m) => r is Ok && final(aliases)@ == m,
            Err(missing) => r matches Err(AliasError::NotFound { name }) && name@ == missing,
        },
{
    let ghost all = names@.map_values(|n: String| n@);
    let mut i: usize = 0;
    assert(all.subrange(0, all.len() as int) =~= all);
    while i < names.len()
        invariant
            all == names@.map_values(|n: String| n@),
            i <= names@.len(),
            after_deletes(old(aliases)@, all) == after_deletes(
                aliases@,
                all.subrange(i as int, all.len() as int),
            ),
        decreases names@.len() - i,
    {
        let ghost rest = all.subrange(i as int, all.len() as int);
        assert(rest[0] == names@[i as int]@);
        assert(rest.drop_first() =~= all.subrange(i as int + 1, all.len() as int));
        if !aliases.remove(names[i].as_str()) {
            return Err(AliasError::NotFound { name: names[i].clone() });
        }
        i = i + 1;
    }
    assert(all.subrange(i as int, all.len() as int) =~= Seq::<Seq<char>>::empty());
    Ok(())
}

/// Adds every imported alias, replacing those of the same name, and says how many
/// were imported. Importing nothing is refused.
pub fn import_aliases(aliases: &mut AliasMap, imported: &AliasMap) -> (r: Result<usize, AliasError>)
    ensures
        imported@ == Map::<Seq<char>, Seq<char>>::empty() ==> r == Err::<usize, AliasError>(
            AliasError::NothingToImport,
        ) && final(aliases)@ == old(aliases)@,
        imported@ != Map::<Seq<char>, Seq<char>>::empty() ==> r == Ok::<usize, AliasError>(
            imported@.len() as usize,
        ) && final(aliases)@ == old(aliases)@.union_prefer_right(imported@),
{
    if imported.is_empty() {
        return Err(AliasError::NothingToImport);
    }
    let list = imported.entries();
    let mut i: usize = 0;
    while i < list.len()
        invariant
            strictly_sorted(list@),
            alias_map_of(list@) == imported@,
            i <= list@.len(),
            aliases@ == old(aliases)@.union_prefer_right(alias_map_of(list@.subrange(0, i as int))),
        decreases list@.len() - i,
    {
        proof {
            assert(list@.subrange(0, i as int + 1).drop_last() =~= list@.subrange(0, i as int));
        }
        aliases.set(list[i].0.clone(), list[i].1.clone());
        proof {
            assert(aliases@ =~= old(aliases)@.union_prefer_right(
                alias_map_of(list@.subrange(0, i as int + 1)),
            ));
        }
        i = i + 1;
    }
    assert(list@.subrange(0, list@.len() as int) =~= list@);
    Ok(imported.len())
}

} // verus!

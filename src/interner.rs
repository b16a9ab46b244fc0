use vstd::prelude::*;
use fnv::FnvHashMap;
use crate::attributes::{AttributeMap, FieldSeq};
use crate::render::{contains_nul, has_nul};

verus! {

/// The attributes of a signature: `key: value`, joined by `", "`.
pub open spec fn signature_fields(s: FieldSeq) -> Seq<char>
    decreases s.len(),
{
    if s.len() == 0 {
        Seq::empty()
    } else {
        let e = s.last();
        let entry = e.0 + seq![':', ' '] + e.1;
        if s.len() == 1 {
            entry
        } else {
            signature_fields(s.drop_last()) + seq![',', ' '] + entry
        }
    }
}

/// A span's signature: `target::name(k1: v1, k2: v2, ...)`.
pub open spec fn signature_text(target: Seq<char>, name: Seq<char>, attrs: FieldSeq) -> Seq<char> {
    target + seq![':', ':'] + name + seq!['('] + signature_fields(attrs) + seq![')']
}

/// Builds the signature of a span from its qualified identity and attributes.
pub fn signature(target: &str, name: &str, attrs: &AttributeMap) -> (r: String)
    ensures
        r@ == signature_text(target@, name@, attrs@),
{
    proof {
        reveal_strlit("::");
        reveal_strlit("(");
        assert("::"@ =~= seq![':', ':']);
        assert("("@ =~= seq!['(']);
    }
    let mut out = String::from_str(target);
    out.append("::");
    out.append(name);
    out.append("(");
    let ghost start = out@;
    let mut i: usize = 0;
    while i < attrs.len()
        invariant
            i <= attrs@.len(),
            out@ == start + signature_fields(attrs@.take(i as int)),
        decreases attrs@.len() - i,
    {
        proof {
            reveal_strlit(", ");
            reveal_strlit(": ");
            assert(", "@ =~= seq![',', ' ']);
            assert(": "@ =~= seq![':', ' ']);
        }
        assert(attrs@.take(i + 1).drop_last() =~= attrs@.take(i as int));
        if i > 0 {
            out.append(", ");
        }
        out.append(attrs.key(i).as_str());
        out.append(": ");
        out.append(attrs.value(i).as_str());
        assert(out@ =~= start + signature_fields(attrs@.take(i + 1)));
        i = i + 1;
    }
    assert(attrs@.take(i as int) =~= attrs@);
    proof {
        reveal_strlit(")");
        assert(")"@ =~= seq![')']);
    }
    out.append(")");
    assert(out@ =~= signature_text(target@, name@, attrs@));
    out
}

/// The lookup table of interned signatures, held in an `FnvHashMap`.
#[verifier::external_body]
pub struct NameTable {
    map: FnvHashMap<String, usize>,
}

/// What a name table holds: each signature and the id stored under it.
pub uninterp spec fn table_entries(t: NameTable) -> Map<Seq<char>, usize>;

/// Relies on `FnvHashMap::default`: a map with no entries.
#[verifier::external_body]
fn table_new() -> (r: NameTable)
    ensures
        forall|k: Seq<char>| !(#[trigger] table_entries(r).contains_key(k)),
{
    NameTable { map: FnvHashMap::default() }
}

/// Relies on `HashMap::get` over the fnv hasher: the value stored under a
/// key equal to `key`, if any.
#[verifier::external_body]
fn table_get(t: &NameTable, key: &String) -> (r: Option<usize>)
    ensures
        table_entries(*t).contains_key(key@) ==> r == Some(table_entries(*t)[key@]),
        !table_entries(*t).contains_key(key@) ==> r.is_none(),
{
    t.map.get(key).copied()
}

/// Relies on `HashMap::insert` over the fnv hasher: `key` is then mapped to
/// `id`, every other entry is kept.
#[verifier::external_body]
fn table_insert(t: &mut NameTable, key: String, id: usize)
    ensures
        table_entries(*final(t)) == table_entries(*old(t)).insert(key@, id),
{
    t.map.insert(key, id);
}

/// Stable identity of an interned name.
#[derive(Clone, Copy, Debug, PartialEq, Eq, Structural)]
pub struct NameId {
    pub index: usize,
}

/// The result of interning: the name's id, and whether this call stored it.
#[derive(Clone, Copy, Debug, PartialEq, Eq, Structural)]
pub struct Interned {
    pub id: NameId,
    pub fresh: bool,
}

/// Position of `sig` among `names`, or -1.
pub open spec fn name_index(names: Seq<Seq<char>>, sig: Seq<char>) -> int
    decreases names.len(),
{
    if names.len() == 0 {
        -1
    } else if names.last() == sig {
        names.len() - 1
    } else {
        name_index(names.drop_last(), sig)
    }
}

/// What interning `sig` does to the stored names, and the id it returns.
pub open spec fn spec_intern(names: Seq<Seq<char>>, sig: Seq<char>) -> (Seq<Seq<char>>, int) {
    let i = name_index(names, sig);
    if i >= 0 {
        (names, i)
    } else {
        (names.push(sig), names.len() as int)
    }
}

/// Distinct stored names.
pub open spec fn names_distinct(names: Seq<Seq<char>>) -> bool {
    forall|i: int, j: int| 0 <= i < names.len() && 0 <= j < names.len() && i != j ==> names[i] != names[j]
}

pub proof fn lemma_name_index(names: Seq<Seq<char>>, sig: Seq<char>)
    ensures
        -1 <= name_index(names, sig) < names.len(),
        name_index(names, sig) >= 0 ==> names[name_index(names, sig)] == sig,
        name_index(names, sig) == -1 <==> forall|j: int| 0 <= j < names.len() ==> names[j] != sig,
    decreases names.len(),
{
    if names.len() > 0 {
        lemma_name_index(names.drop_last(), sig);
        assert(forall|j: int| 0 <= j < names.len() - 1 ==> names.drop_last()[j] == #[trigger] names[j]);
    }
}

/// Interning a signature a second time returns the id of the first call
/// and stores nothing.
pub proof fn lemma_intern_twice(names: Seq<Seq<char>>, sig: Seq<char>)
    ensures
        spec_intern(spec_intern(names, sig).0, sig) == spec_intern(names, sig),
{
    lemma_name_index(names, sig);
    let (n1, i) = spec_intern(names, sig);
    lemma_name_index(n1, sig);
    if name_index(names, sig) < 0 {
        assert(n1.last() == sig);
    }
}

/// Two distinct signatures interned one after the other get distinct ids.
pub proof fn lemma_intern_distinct(names: Seq<Seq<char>>, a: Seq<char>, b: Seq<char>)
    requires
        a != b,
    ensures
        spec_intern(spec_intern(names, a).0, b).1 != spec_intern(names, a).1,
{
    lemma_name_index(names, a);
    let (n1, i) = spec_intern(names, a);
    lemma_name_index(n1, b);
    let j = name_index(n1, b);
    if j >= 0 {
        assert(n1[j] == b);
        assert(n1[i] == a);
    }
}

/// The id returned stands for the signature interned, and names already
/// stored keep their ids: one id never stands for two signatures.
pub proof fn lemma_intern_id_stable(names: Seq<Seq<char>>, sig: Seq<char>)
    ensures
        0 <= spec_intern(names, sig).1 < spec_intern(names, sig).0.len(),
        spec_intern(names, sig).0[spec_intern(names, sig).1] == sig,
        spec_intern(names, sig).0.len() >= names.len(),
        spec_intern(names, sig).0.subrange(0, names.len() as int) == names,
{
    lemma_name_index(names, sig);
    assert(spec_intern(names, sig).0.subrange(0, names.len() as int) =~= names);
}

/// Cache from span signatures to native names: each distinct signature is
/// stored once, under a stable id, and never evicted.
pub struct NameInterner {
    table: NameTable,
    names: Vec<String>,
}

impl View for NameInterner {
    type V = Seq<Seq<char>>;

    closed spec fn view(&self) -> Seq<Seq<char>> {
        self.names@.map_values(|s: String| s@)
    }
}

impl NameInterner {
    /// The table maps exactly the stored names to their positions.
    pub closed spec fn wf(&self) -> bool {
        &&& forall|k: Seq<char>| #[trigger] table_entries(self.table).contains_key(k) ==> {
            let i = table_entries(self.table)[k] as int;
            0 <= i < self@.len() && self@[i] == k
        }
        &&& forall|i: int| 0 <= i < self@.len() ==> {
            &&& table_entries(self.table).contains_key(#[trigger] self@[i])
            &&& table_entries(self.table)[self@[i]] == i
        }
    }

    pub proof fn lemma_distinct(&self)
        requires
            self.wf(),
        ensures
            names_distinct(self@),
    {
        assert forall|i: int, j: int|
            0 <= i < self@.len() && 0 <= j < self@.len() && i != j implies self@[i] != self@[j] by {
            assert(table_entries(self.table).contains_key(self@[i]));
            assert(table_entries(self.table).contains_key(self@[j]));
        }
    }

    /// An interner with nothing stored.
    pub fn new() -> (r: NameInterner)
        ensures
            r.wf(),
            r@ == Seq::<Seq<char>>::empty(),
    {
        let r = NameInterner { table: table_new(), names: Vec::new() };
        assert(r@ =~= Seq::<Seq<char>>::empty());
        r
    }

    pub fn len(&self) -> (r: usize)
        ensures
            r == self@.len(),
    {
        self.names.len()
    }

    /// The signature stored under `id`.
    pub fn name(&self, id: NameId) -> (r: &String)
        requires
            id.index < self@.len(),
        ensures
            r@ == self@[id.index as int],
    {
        &self.names[id.index]
    }

    /// Looks `sig` up; stores it under a new id when absent. Text holding NUL
    /// cannot become a native name and is refused, leaving the cache as it was.
    pub fn intern(&mut self, sig: String) -> (r: Option<Interned>)
        requires
            old(self).wf(),
        ensures
            final(self).wf(),
            has_nul(sig@) ==> r.is_none() && final(self)@ == old(self)@,
            !has_nul(sig@) ==> {
                let (names, id) = spec_intern(old(self)@, sig@);
                &&& final(self)@ == names
                &&& r == Some(Interned { id: NameId { index: id as usize }, fresh: names.len() > old(self)@.len() })
            },
    {
        proof {
            self.lemma_distinct();
            lemma_name_index(self@, sig@);
        }
        if contains_nul(sig.as_str()) {
            return None;
        }
        match table_get(&self.table, &sig) {
            Some(i) => {
                proof {
                    let j = name_index(self@, sig@);
                    if j != i as int {
                        assert(self@[i as int] == sig@);
                    }
                }
                Some(Interned { id: NameId { index: i }, fresh: false })
            },
            None => {
                let i = self.names.len();
                proof {
                    if name_index(self@, sig@) >= 0 {
                        assert(table_entries(self.table).contains_key(self@[name_index(self@, sig@)]));
                    }
                }
                let ghost old_names = self@;
                self.names.push(sig.clone());
                table_insert(&mut self.table, sig, i);
                assert(self@ =~= old_names.push(sig@));
                assert(self.wf()) by {
                    assert forall|k: Seq<char>| #[trigger] table_entries(self.table).contains_key(k) implies {
                        let j = table_entries(self.table)[k] as int;
                        0 <= j < self@.len() && self@[j] == k
                    } by {
                        if k != self@[i as int] {
                            assert(table_entries(old(self).table).contains_key(k));
                        }
                    }
                    assert forall|j: int| 0 <= j < self@.len() implies {
                        &&& table_entries(self.table).contains_key(#[trigger] self@[j])
                        &&& table_entries(self.table)[self@[j]] == j
                    } by {
                        if j < i {
                            assert(old_names[j] == self@[j]);
                        }
                    }
                }
                Some(Interned { id: NameId { index: i }, fresh: true })
            },
        }
    }
}

} // verus!

use bimap::BiHashMap;
use vstd::prelude::*;

verus! {

#[verifier::external_type_specification]
#[verifier::external_body]
#[verifier::reject_recursive_types(L)]
#[verifier::reject_recursive_types(R)]
#[verifier::reject_recursive_types(LS)]
#[verifier::reject_recursive_types(RS)]
pub struct ExBiHashMap<L, R, LS, RS>(BiHashMap<L, R, LS, RS>);

/// A bidirectional map between labels and addresses.
pub type LabelMap = BiHashMap<String, usize>;

/// The label-to-address pairs that a bimap holds.
pub uninterp spec fn label_pairs(m: BiHashMap<String, usize>) -> Map<Seq<char>, usize>;

/// The pairs of `p` whose label is not `l` and whose address is not `a`.
pub open spec fn without_pairs(p: Map<Seq<char>, usize>, l: Seq<char>, a: usize) -> Map<
    Seq<char>,
    usize,
> {
    Map::new(|k: Seq<char>| p.contains_key(k) && k != l && p[k] != a, |k: Seq<char>| p[k])
}

/// Whether no two labels of `p` name the same address.
pub open spec fn injective_pairs(p: Map<Seq<char>, usize>) -> bool {
    forall|a: Seq<char>, b: Seq<char>|
        #[trigger] p.contains_key(a) && #[trigger] p.contains_key(b) && a != b ==> p[a] != p[b]
}

/// Relies on `bimap::BiHashMap::new`: an empty bimap.
#[verifier::external_body]
pub(crate) fn labels_new() -> (r: LabelMap)
    ensures
        label_pairs(r).dom() == Set::<Seq<char>>::empty(),
{
    BiHashMap::new()
}

/// Relies on `bimap::BiHashMap::insert`: the pair holding the label and the
/// pair holding the address are removed, then the new pair is added.
#[verifier::external_body]
pub(crate) fn labels_insert(m: &mut LabelMap, label: String, address: usize)
    ensures
        label_pairs(*final(m)) == without_pairs(label_pairs(*old(m)), label@, address).insert(
            label@,
            address,
        ),
{
    m.insert(label, address);
}

/// Relies on `bimap::BiHashMap::get_by_left`: the address paired with a label.
#[verifier::external_body]
pub(crate) fn labels_get_by_left(m: &LabelMap, label: &str) -> (r: Option<usize>)
    ensures
        r == (if label_pairs(*m).contains_key(label@) {
            Some(label_pairs(*m)[label@])
        } else {
            None
        }),
{
    m.get_by_left(label).copied()
}

/// Relies on `bimap::BiHashMap::get_by_right`: the label paired with an address.
#[verifier::external_body]
pub(crate) fn labels_get_by_right(m: &LabelMap, address: usize) -> (r: Option<String>)
    ensures
        match r {
            Some(l) => label_pairs(*m).contains_key(l@) && label_pairs(*m)[l@] == address,
            None => forall|k: Seq<char>| #[trigger]
                label_pairs(*m).contains_key(k) ==> label_pairs(*m)[k] != address,
        },
{
    m.get_by_right(&address).cloned()
}

/// Relies on `bimap::BiHashMap::contains_left`: whether a label is paired.
#[verifier::external_body]
pub(crate) fn labels_contains_left(m: &LabelMap, label: &str) -> (r: bool)
    ensures
        r == label_pairs(*m).contains_key(label@),
{
    m.contains_left(label)
}

/// Relies on `bimap::BiHashMap::remove_by_left`: the pair holding the label is removed.
#[verifier::external_body]
pub(crate) fn labels_remove_by_left(m: &mut LabelMap, label: &str)
    ensures
        label_pairs(*final(m)) == label_pairs(*old(m)).remove(label@),
{
    m.remove_by_left(label);
}

/// Inserting into a bimap keeps each address named by one label at most.
pub proof fn lemma_insert_keeps_injective(p: Map<Seq<char>, usize>, l: Seq<char>, a: usize)
    requires
        injective_pairs(p),
    ensures
        injective_pairs(without_pairs(p, l, a).insert(l, a)),
{
    let q = without_pairs(p, l, a).insert(l, a);
    assert forall|x: Seq<char>, y: Seq<char>|
        #[trigger] q.contains_key(x) && #[trigger] q.contains_key(y) && x != y implies q[x]
        != q[y] by {
        if x != l && y != l {
            assert(p.contains_key(x) && p.contains_key(y));
        }
    }
}

} // verus!

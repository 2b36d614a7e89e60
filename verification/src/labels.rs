//! Label lookup for ordered label-keyed associations.
//!
//! Classification outputs and filter banks are kept as ordered lists of
//! entries with unique labels (map semantics: unique keys, insertion order
//! preserved, no guaranteed inter-label order). These spec functions say
//! what it means for labels to be unique and where a label stands in such a
//! list.

use vstd::prelude::*;

verus! {

/// Whether the labels are pairwise distinct.
pub open spec fn distinct_labels(labels: Seq<Seq<char>>) -> bool {
    forall|i: int, j: int| 0 <= i < j < labels.len() ==> labels[i] != labels[j]
}

/// The index of the first occurrence of `label`, or -1 when it is absent.
pub open spec fn index_of_label(labels: Seq<Seq<char>>, label: Seq<char>) -> int
    decreases labels.len(),
{
    if labels.len() == 0 {
        -1
    } else if labels[0] == label {
        0
    } else {
        let r = index_of_label(labels.drop_first(), label);
        if r < 0 {
            -1
        } else {
            r + 1
        }
    }
}

/// What `index_of_label` finds: -1 exactly when the label is absent, and
/// otherwise the first index that carries it.
pub proof fn lemma_index_of_label(labels: Seq<Seq<char>>, label: Seq<char>)
    ensures
        ({
            let r = index_of_label(labels, label);
            &&& (r == -1 <==> (forall|i: int| 0 <= i < labels.len() ==> labels[i] != label))
            &&& (r >= 0 ==> r < labels.len() && labels[r] == label && (forall|i: int|
                0 <= i < r ==> labels[i] != label))
        }),
    decreases labels.len(),
{
    if labels.len() == 0 {
    } else {
        lemma_index_of_label(labels.drop_first(), label);
        assert forall|i: int| 1 <= i < labels.len() implies labels[i] == labels.drop_first()[i
            - 1] by {
        }
    }
}

/// How the first occurrence moves when one more label is appended.
pub proof fn lemma_index_of_label_push(labels: Seq<Seq<char>>, appended: Seq<char>, label: Seq<char>)
    ensures
        index_of_label(labels.push(appended), label) == if index_of_label(labels, label) >= 0 {
            index_of_label(labels, label)
        } else if appended == label {
            labels.len() as int
        } else {
            -1
        },
    decreases labels.len(),
{
    if labels.len() == 0 {
        assert(labels.push(appended)[0] == appended);
        assert(labels.push(appended).drop_first() =~= Seq::<Seq<char>>::empty());
        assert(index_of_label(Seq::<Seq<char>>::empty(), label) == -1);
    } else {
        lemma_index_of_label_push(labels.drop_first(), appended, label);
        assert(labels.push(appended).drop_first() =~= labels.drop_first().push(appended));
        assert(labels.push(appended)[0] == labels[0]);
    }
}

} // verus!

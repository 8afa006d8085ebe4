//! S3 and stores that speak its protocol. The key of an object is the path
//! of the file below the sync root, and its tag is the entity tag that the
//! store assigns.

use crate::manifest::{RemoteObjectRecord, RemoteObjectView};
use crate::text::{trim_char, trimmed};
use vstd::prelude::*;

verus! {

/// An object as the store lists it. Either part may be missing from the
/// listing.
#[derive(Clone, Debug, PartialEq, Eq)]
pub struct ListedObject {
    pub key: Option<String>,
    pub e_tag: Option<String>,
}

pub ghost struct ListedObjectView {
    pub key: Option<Seq<char>>,
    pub e_tag: Option<Seq<char>>,
}

impl View for ListedObject {
    type V = ListedObjectView;

    open spec fn view(&self) -> ListedObjectView {
        ListedObjectView {
            key: match self.key {
                Some(k) => Some(k@),
                None => None,
            },
            e_tag: match self.e_tag {
                Some(t) => Some(t@),
                None => None,
            },
        }
    }
}

impl DeepView for ListedObject {
    type V = ListedObjectView;

    open spec fn deep_view(&self) -> ListedObjectView {
        self@
    }
}

/// An entity tag without the double quotes around it.
pub open spec fn unquoted(e_tag: Seq<char>) -> Seq<char> {
    trimmed(e_tag, '"')
}

/// Whether a listed object has both a key and an entity tag.
pub open spec fn complete(object: ListedObjectView) -> bool {
    object.key is Some && object.e_tag is Some
}

/// The record of a listed object that is complete.
pub open spec fn record_of(object: ListedObjectView) -> RemoteObjectView {
    RemoteObjectView { key: object.key->0, content_tag: unquoted(object.e_tag->0) }
}

/// The remote listing for the objects that the store lists: a record for
/// each object that has a key and an entity tag, in the store's order.
pub open spec fn records_of(objects: Seq<ListedObjectView>) -> Seq<RemoteObjectView> {
    objects.filter(|o: ListedObjectView| complete(o)).map_values(|o: ListedObjectView| record_of(o))
}

/// Builds the remote listing from the objects that the store lists.
pub fn listing(objects: &Vec<ListedObject>) -> (records: Vec<RemoteObjectRecord>)
    ensures
        records.deep_view() == records_of(objects.deep_view()),
{
    let ghost all = objects.deep_view();
    let ghost keep = |o: ListedObjectView| complete(o);
    let ghost make = |o: ListedObjectView| record_of(o);
    let mut records: Vec<RemoteObjectRecord> = Vec::new();
    let mut i: usize = 0;
    assert(all.take(0) =~= Seq::empty());
    assert(Seq::<ListedObjectView>::empty().filter(keep) =~= Seq::empty()) by {
        reveal(Seq::filter);
    }
    while i < objects.len()
        invariant
            i <= objects.len(),
            all == objects.deep_view(),
            keep == |o: ListedObjectView| complete(o),
            make == |o: ListedObjectView| record_of(o),
            records.deep_view() == all.take(i as int).filter(keep).map_values(make),
        decreases objects.len() - i,
    {
        let object = &objects[i];
        proof {
            let before = all.take(i as int);
            assert(all.take(i + 1) =~= before.push(all[i as int]));
            before.lemma_filter_push(all[i as int], keep);
            before.filter(keep).lemma_push_map_commute(make, all[i as int]);
        }
        match (&object.key, &object.e_tag) {
            (Some(key), Some(e_tag)) => {
                let ghost old_records = records.deep_view();
                let record = RemoteObjectRecord {
                    key: key.clone(),
                    content_tag: trim_char(e_tag.as_str(), '"'),
                };
                assert(record@ == record_of(all[i as int]));
                records.push(record);
                assert(records.deep_view() =~= old_records.push(record_of(all[i as int])));
            },
            _ => {},
        }
        i += 1;
    }
    assert(all.take(objects.len() as int) =~= all);
    records
}

} // verus!

//! The types that can be reached from a type: the type and its structural
//! components, and for every type among them that names a declaration, the
//! types that the declaration holds, and so on.
//!
//! Declarations may refer to each other in a circle. The enumeration therefore
//! works from a queue of types whose declarations are still to be looked into,
//! and looks into the declaration of each type once.

use vstd::prelude::*;
use crate::callbacks::CallbackInterfaceModel;
use crate::enum_::EnumModel;
use crate::error::ErrorModel;
use crate::fold::{flat_map, lemma_flat_map_contains, lemma_position, position};
use crate::interface::{ComponentInterface, InterfaceModel};
use crate::object::ObjectModel;
use crate::record::RecordModel;
use crate::types::{models_of, Type, TypeModel};

verus! {

impl InterfaceModel {
    /// The types that the declaration named by `t` holds. A type that names no
    /// declaration of its kind holds none.
    pub open spec fn declared_types(self, t: TypeModel) -> Seq<TypeModel> {
        match t {
            TypeModel::Record(n) => match self.record_named(n) {
                Some(d) => d.types(),
                None => Seq::empty(),
            },
            TypeModel::Enum(n) => match self.enum_named(n) {
                Some(d) => d.types(),
                None => Seq::empty(),
            },
            TypeModel::Error(n) => match self.error_named(n) {
                Some(d) => d.types(),
                None => Seq::empty(),
            },
            TypeModel::Object(n) => match self.object_named(n) {
                Some(d) => d.types(),
                None => Seq::empty(),
            },
            TypeModel::CallbackInterface(n) => match self.callback_interface_named(n) {
                Some(d) => d.types(),
                None => Seq::empty(),
            },
            _ => Seq::empty(),
        }
    }

    /// The types that the declarations of the interface hold, all of them.
    pub open spec fn every_declared_type(self) -> Seq<TypeModel> {
        flat_map(self.records, |d: RecordModel| d.types()) + flat_map(
            self.enums,
            |d: EnumModel| d.types(),
        ) + flat_map(self.errors, |d: ErrorModel| d.types()) + flat_map(
            self.objects,
            |d: ObjectModel| d.types(),
        ) + flat_map(self.callback_interfaces, |d: CallbackInterfaceModel| d.types())
    }

    /// Whether `path` leads from `item` on: its first type is one that `item`
    /// holds, and each further type is held by the declaration of the type before it.
    pub open spec fn leads_from(self, item: TypeModel, path: Seq<TypeModel>) -> bool {
        &&& path.len() > 0
        &&& item.types().contains(path[0])
        &&& forall|k: int|
            0 <= k < path.len() - 1 ==> self.declared_types(#[trigger] path[k]).contains(
                path[k + 1],
            )
    }

    /// Whether `t` is reached from `item`: it is `item` or a structural
    /// component of it, or the declaration of a type reached from `item` holds it.
    pub open spec fn reaches(self, item: TypeModel, t: TypeModel) -> bool {
        exists|path: Seq<TypeModel>| #[trigger] self.leads_from(item, path) && path.last() == t
    }

    /// Whether every type that the declaration named by `u` holds is among `found`.
    pub open spec fn looked_into(self, found: Seq<TypeModel>, u: TypeModel) -> bool {
        forall|t: TypeModel| #[trigger] self.declared_types(u).contains(t) ==> found.contains(t)
    }

    /// What a type reached from `item` holds by its declaration is reached from `item`.
    pub proof fn lemma_reaches_further(self, item: TypeModel, u: TypeModel, t: TypeModel)
        requires
            self.reaches(item, u),
            self.declared_types(u).contains(t),
        ensures
            self.reaches(item, t),
    {
        let path = choose|path: Seq<TypeModel>| #[trigger]
            self.leads_from(item, path) && path.last() == u;
        let longer = path.push(t);
        assert forall|k: int| 0 <= k < longer.len() - 1 implies self.declared_types(
            #[trigger] longer[k],
        ).contains(longer[k + 1]) by {
            if k < path.len() - 1 {
                assert(longer[k] == path[k]);
                assert(longer[k + 1] == path[k + 1]);
            }
        }
        assert(longer[0] == path[0]);
        assert(self.leads_from(item, longer) && longer.last() == t);
    }

    /// What `item` holds is reached from `item`.
    pub proof fn lemma_reaches_held(self, item: TypeModel, t: TypeModel)
        requires
            item.types().contains(t),
        ensures
            self.reaches(item, t),
    {
        let path = seq![t];
        assert(self.leads_from(item, path) && path.last() == t);
    }

    /// A list that holds what `item` holds, and with each type what its
    /// declaration holds, holds every type on a path that leads from `item` on.
    pub proof fn lemma_path_is_found(
        self,
        item: TypeModel,
        found: Seq<TypeModel>,
        path: Seq<TypeModel>,
        k: int,
    )
        requires
            forall|x: TypeModel| #[trigger] item.types().contains(x) ==> found.contains(x),
            forall|u: TypeModel| #[trigger] found.contains(u) ==> self.looked_into(found, u),
            self.leads_from(item, path),
            0 <= k < path.len(),
        ensures
            found.contains(path[k]),
        decreases k,
    {
        if k > 0 {
            self.lemma_path_is_found(item, found, path, k - 1);
            assert(self.looked_into(found, path[k - 1]));
            assert(self.declared_types(path[k - 1]).contains(path[k - 1 + 1]));
        }
    }

    /// A list that holds what `item` holds, and with each type what its
    /// declaration holds, holds every type reached from `item`.
    pub proof fn lemma_reached_is_found(self, item: TypeModel, found: Seq<TypeModel>, t: TypeModel)
        requires
            forall|x: TypeModel| #[trigger] item.types().contains(x) ==> found.contains(x),
            forall|u: TypeModel| #[trigger] found.contains(u) ==> self.looked_into(found, u),
            self.reaches(item, t),
        ensures
            found.contains(t),
    {
        let path = choose|path: Seq<TypeModel>| #[trigger]
            self.leads_from(item, path) && path.last() == t;
        self.lemma_path_is_found(item, found, path, path.len() - 1);
    }

    /// What a declaration holds is among the types that the declarations hold.
    pub proof fn lemma_declared_is_counted(self, u: TypeModel, t: TypeModel)
        requires
            self.declared_types(u).contains(t),
        ensures
            self.every_declared_type().contains(t),
    {
        let records = flat_map(self.records, |d: RecordModel| d.types());
        let enums = flat_map(self.enums, |d: EnumModel| d.types());
        let errors = flat_map(self.errors, |d: ErrorModel| d.types());
        let objects = flat_map(self.objects, |d: ObjectModel| d.types());
        let callbacks = flat_map(self.callback_interfaces, |d: CallbackInterfaceModel| d.types());
        let all = self.every_declared_type();
        assert(all == records + enums + errors + objects + callbacks);
        match u {
            TypeModel::Record(n) => {
                let names = self.records.map_values(|r: RecordModel| r.name);
                lemma_position(names, n);
                let i = position(names, n)->0;
                lemma_flat_map_contains(self.records, |d: RecordModel| d.types(), i, t);
                let k = choose|k: int| 0 <= k < records.len() && records[k] == t;
                assert(all[k] == t);
            },
            TypeModel::Enum(n) => {
                let names = self.enums.map_values(|e: EnumModel| e.name);
                lemma_position(names, n);
                let i = position(names, n)->0;
                lemma_flat_map_contains(self.enums, |d: EnumModel| d.types(), i, t);
                let k = choose|k: int| 0 <= k < enums.len() && enums[k] == t;
                assert(all[records.len() + k] == t);
            },
            TypeModel::Error(n) => {
                let names = self.errors.map_values(|e: ErrorModel| e.name());
                lemma_position(names, n);
                let i = position(names, n)->0;
                lemma_flat_map_contains(self.errors, |d: ErrorModel| d.types(), i, t);
                let k = choose|k: int| 0 <= k < errors.len() && errors[k] == t;
                assert(all[records.len() + enums.len() + k] == t);
            },
            TypeModel::Object(n) => {
                let names = self.objects.map_values(|o: ObjectModel| o.name);
                lemma_position(names, n);
                let i = position(names, n)->0;
                lemma_flat_map_contains(self.objects, |d: ObjectModel| d.types(), i, t);
                let k = choose|k: int| 0 <= k < objects.len() && objects[k] == t;
                assert(all[records.len() + enums.len() + errors.len() + k] == t);
            },
            TypeModel::CallbackInterface(n) => {
                let names = self.callback_interfaces.map_values(
                    |c: CallbackInterfaceModel| c.name,
                );
                lemma_position(names, n);
                let i = position(names, n)->0;
                lemma_flat_map_contains(
                    self.callback_interfaces,
                    |d: CallbackInterfaceModel| d.types(),
                    i,
                    t,
                );
                let k = choose|k: int| 0 <= k < callbacks.len() && callbacks[k] == t;
                assert(all[records.len() + enums.len() + errors.len() + objects.len() + k] == t);
            },
            _ => {},
        }
    }
}

/// A list without repetitions, all of whose items are items of another list, is
/// no longer than the other.
pub proof fn lemma_no_longer<A>(a: Seq<A>, b: Seq<A>)
    requires
        a.no_duplicates(),
        forall|x: A| #[trigger] a.contains(x) ==> b.contains(x),
    ensures
        a.len() <= b.len(),
{
    a.unique_seq_to_set();
    b.lemma_cardinality_of_set();
    vstd::seq_lib::seq_to_set_is_finite(b);
    assert(a.to_set().subset_of(b.to_set())) by {
        assert forall|x: A| a.to_set().contains(x) implies b.to_set().contains(x) by {
            assert(a.contains(x));
        }
    }
    vstd::set_lib::lemma_len_subset(a.to_set(), b.to_set());
}


/// The items of a list with one more item are the items of the list and the one more.
pub proof fn lemma_push_contains<A>(s: Seq<A>, a: A)
    ensures
        forall|x: A| #[trigger] s.push(a).contains(x) <==> s.contains(x) || x == a,
{
    assert forall|x: A| #[trigger] s.push(a).contains(x) <==> s.contains(x) || x == a by {
        if s.push(a).contains(x) {
            let k = choose|k: int| 0 <= k < s.push(a).len() && s.push(a)[k] == x;
            if k < s.len() {
                assert(s[k] == x);
            }
        }
        if s.contains(x) {
            let k = choose|k: int| 0 <= k < s.len() && s[k] == x;
            assert(s.push(a)[k] == x);
        }
        if x == a {
            assert(s.push(a)[s.len() as int] == x);
        }
    }
}

/// The items of a list without its last item, and the last, are the items of the list.
pub proof fn lemma_drop_last_contains<A>(s: Seq<A>)
    requires
        s.len() > 0,
    ensures
        forall|x: A| #[trigger] s.contains(x) <==> s.drop_last().contains(x) || x == s.last(),
{
    assert(s.drop_last().push(s.last()) =~= s);
    lemma_push_contains(s.drop_last(), s.last());
}

fn is_declared(t: &Type) -> (r: bool)
    ensures
        r == (t@.declared_name() is Some),
{
    match t {
        Type::Record(_) | Type::Enum(_) | Type::Error(_) | Type::Object(_)
        | Type::CallbackInterface(_) => true,
        _ => false,
    }
}

fn holds(found: &Vec<&Type>, t: &Type) -> (r: bool)
    ensures
        r == models_of(found@).contains(t@),
{
    let mut i: usize = 0;
    while i < found.len()
        invariant
            i <= found@.len(),
            forall|j: int| 0 <= j < i ==> models_of(found@)[j] != t@,
        decreases found@.len() - i,
    {
        if found[i].same(t) {
            assert(models_of(found@)[i as int] == t@);
            return true;
        }
        i += 1;
    }
    false
}

/// Adds to `found` every type of `types` that it does not hold yet, and to
/// `pending` every type so added that names a declaration.
fn visit<'a>(found: &mut Vec<&'a Type>, pending: &mut Vec<&'a Type>, types: &Vec<&'a Type>)
    requires
        models_of(old(found)@).no_duplicates(),
    ensures
        models_of(final(found)@).no_duplicates(),
        old(found)@.len() <= final(found)@.len(),
        final(pending)@.len() - old(pending)@.len() <= final(found)@.len() - old(found)@.len(),
        forall|t: TypeModel| #[trigger]
            models_of(final(found)@).contains(t) <==> models_of(old(found)@).contains(t)
                || models_of(types@).contains(t),
        forall|t: TypeModel| #[trigger]
            models_of(final(pending)@).contains(t) <==> models_of(old(pending)@).contains(t) || (
            models_of(types@).contains(t) && !models_of(old(found)@).contains(t)
                && t.declared_name() is Some),
{
    let ghost found0 = models_of(found@);
    let ghost pending0 = models_of(pending@);
    let ghost all = models_of(types@);
    let mut j: usize = 0;
    proof {
        assert(all.take(0) =~= Seq::<TypeModel>::empty());
    }
    while j < types.len()
        invariant
            j <= types@.len(),
            all == models_of(types@),
            found0 == models_of(old(found)@),
            pending0 == models_of(old(pending)@),
            models_of(found@).no_duplicates(),
            found0.len() <= found@.len(),
            pending@.len() - pending0.len() <= found@.len() - found0.len(),
            forall|t: TypeModel| #[trigger]
                models_of(found@).contains(t) <==> found0.contains(t) || all.take(
                    j as int,
                ).contains(t),
            forall|t: TypeModel| #[trigger]
                models_of(pending@).contains(t) <==> pending0.contains(t) || (all.take(
                    j as int,
                ).contains(t) && !found0.contains(t) && t.declared_name() is Some),
        decreases types@.len() - j,
    {
        let t = types[j];
        let ghost found_before = models_of(found@);
        let ghost pending_before = models_of(pending@);
        proof {
            assert(all.take(j as int + 1) =~= all.take(j as int).push(all[j as int]));
            lemma_push_contains(all.take(j as int), all[j as int]);
            assert(all[j as int] == t@);
        }
        if !holds(found, t) {
            found.push(t);
            proof {
                assert(models_of(found@) =~= found_before.push(t@));
                lemma_push_contains(found_before, t@);
            }
            if is_declared(t) {
                pending.push(t);
                proof {
                    assert(models_of(pending@) =~= pending_before.push(t@));
                    lemma_push_contains(pending_before, t@);
                }
            }
        }
        j += 1;
    }
    proof {
        assert(all.take(j as int) =~= all);
    }
}

impl ComponentInterface {
    /// The types that the declaration named by `t` holds.
    fn types_declared_by<'a>(&'a self, t: &Type) -> (r: Vec<&'a Type>)
        ensures
            models_of(r@) == self@.declared_types(t@),
    {
        let found = match t {
            Type::Record(n) => match self.get_record_definition(n.as_str()) {
                Some(d) => Some(d.iter_types()),
                None => None,
            },
            Type::Enum(n) => match self.get_enum_definition(n.as_str()) {
                Some(d) => Some(d.iter_types()),
                None => None,
            },
            Type::Error(n) => match self.get_error_definition(n.as_str()) {
                Some(d) => Some(d.iter_types()),
                None => None,
            },
            Type::Object(n) => match self.get_object_definition(n.as_str()) {
                Some(d) => Some(d.iter_types()),
                None => None,
            },
            Type::CallbackInterface(n) => match self.get_callback_interface_definition(
                n.as_str(),
            ) {
                Some(d) => Some(d.iter_types()),
                None => None,
            },
            _ => None,
        };
        match found {
            Some(types) => types,
            None => {
                let none: Vec<&'a Type> = Vec::new();
                assert(models_of(none@) =~= Seq::empty());
                none
            },
        }
    }

    /// Every type that is reached from `item`, each once: `item` and its
    /// structural components, and for every type found that names a declaration,
    /// the types that the declaration holds. A declaration is looked into once,
    /// so declarations that refer to each other in a circle are no obstacle.
    pub fn iter_types_in_item<'a>(&'a self, item: &'a Type) -> (r: Vec<&'a Type>)
        ensures
            models_of(r@).no_duplicates(),
            forall|t: TypeModel| #[trigger]
                models_of(r@).contains(t) <==> self@.reaches(item@, t),
    {
        let ghost m = self@;
        let ghost all = item@.types() + m.every_declared_type();
        let mut found: Vec<&'a Type> = Vec::new();
        let mut pending: Vec<&'a Type> = Vec::new();
        let first = item.iter_types();
        proof {
            assert(models_of(found@) =~= Seq::empty());
            assert(models_of(pending@) =~= Seq::empty());
        }
        visit(&mut found, &mut pending, &first);
        proof {
            assert forall|t: TypeModel| #[trigger] models_of(found@).contains(t) implies m.reaches(
                item@,
                t,
            ) && all.contains(t) by {
                m.lemma_reaches_held(item@, t);
                let k = choose|k: int| 0 <= k < item@.types().len() && item@.types()[k] == t;
                assert(all[k] == t);
            }
            assert forall|u: TypeModel| #[trigger] models_of(found@).contains(u) implies models_of(
                pending@,
            ).contains(u) || m.looked_into(models_of(found@), u) by {
                if !(u.declared_name() is Some) {
                    assert(m.declared_types(u) =~= Seq::empty());
                }
            }
        }
        while pending.len() > 0
            invariant
                m == self@,
                all == item@.types() + m.every_declared_type(),
                models_of(found@).no_duplicates(),
                forall|t: TypeModel| #[trigger]
                    models_of(found@).contains(t) ==> m.reaches(item@, t) && all.contains(t),
                forall|t: TypeModel| #[trigger]
                    item@.types().contains(t) ==> models_of(found@).contains(t),
                forall|u: TypeModel| #[trigger]
                    models_of(found@).contains(u) ==> models_of(pending@).contains(u)
                        || m.looked_into(models_of(found@), u),
                forall|u: TypeModel| #[trigger]
                    models_of(pending@).contains(u) ==> models_of(found@).contains(u),
            decreases all.len() - found@.len() + pending@.len(),
        {
            let ghost found_before = models_of(found@);
            let ghost pending_before = models_of(pending@);
            proof {
                lemma_no_longer(found_before, all);
                lemma_drop_last_contains(pending_before);
            }
            let next = pending.pop().unwrap();
            let ghost pending_popped = models_of(pending@);
            let types = self.types_declared_by(next);
            proof {
                assert(pending_popped =~= pending_before.drop_last());
                assert(next@ == pending_before.last());
                assert(pending_before.contains(next@));
            }
            visit(&mut found, &mut pending, &types);
            proof {
                let found_after = models_of(found@);
                let pending_after = models_of(pending@);
                assert forall|t: TypeModel| #[trigger] found_after.contains(t) implies m.reaches(
                    item@,
                    t,
                ) && all.contains(t) by {
                    if !found_before.contains(t) {
                        assert(models_of(types@).contains(t));
                        m.lemma_reaches_further(item@, next@, t);
                        m.lemma_declared_is_counted(next@, t);
                        let k = choose|k: int|
                            0 <= k < m.every_declared_type().len() && m.every_declared_type()[k]
                                == t;
                        assert(all[item@.types().len() + k] == t);
                    }
                }
                assert forall|u: TypeModel| #[trigger] found_after.contains(u) implies pending_after.contains(
                    u,
                ) || m.looked_into(found_after, u) by {
                    if found_before.contains(u) {
                        if u == next@ {
                            assert(m.looked_into(found_after, u));
                        } else if pending_before.contains(u) {
                            assert(pending_popped.contains(u));
                        } else {
                            assert(m.looked_into(found_before, u));
                            assert(m.looked_into(found_after, u));
                        }
                    } else {
                        if !(u.declared_name() is Some) {
                            assert(m.declared_types(u) =~= Seq::empty());
                        }
                    }
                }
                assert forall|u: TypeModel| #[trigger] pending_after.contains(u) implies found_after.contains(
                    u,
                ) by {
                    if pending_popped.contains(u) {
                        assert(pending_before.contains(u));
                        assert(found_before.contains(u));
                    }
                }
                lemma_no_longer(found_after, all);
            }
        }
        proof {
            let result = models_of(found@);
            assert forall|t: TypeModel| m.reaches(item@, t) implies #[trigger] result.contains(
                t,
            ) by {
                assert forall|u: TypeModel| #[trigger] result.contains(u) implies m.looked_into(
                    result,
                    u,
                ) by {
                    assert(!models_of(pending@).contains(u));
                }
                m.lemma_reached_is_found(item@, result, t);
            }
        }
        found
    }

    /// Whether a type that names an object is reached from `item`. Bindings that
    /// cannot leave the destruction of objects to their host need to know.
    pub fn item_contains_object_references(&self, item: &Type) -> (r: bool)
        ensures
            r == exists|t: TypeModel| #[trigger] self@.reaches(item@, t) && t is Object,
    {
        let reached = self.iter_types_in_item(item);
        let mut i: usize = 0;
        while i < reached.len()
            invariant
                i <= reached@.len(),
                forall|t: TypeModel| #[trigger]
                    models_of(reached@).contains(t) <==> self@.reaches(item@, t),
                forall|j: int| 0 <= j < i ==> !(models_of(reached@)[j] is Object),
            decreases reached@.len() - i,
        {
            assert(models_of(reached@)[i as int] == reached@[i as int]@);
            if let Type::Object(_) = reached[i] {
                assert(models_of(reached@).contains(reached@[i as int]@));
                return true;
            }
            i += 1;
        }
        proof {
            assert forall|t: TypeModel| #[trigger] self@.reaches(item@, t) implies !(t is Object) by {
                assert(models_of(reached@).contains(t));
            }
        }
        false
    }

    /// Whether an unsigned integer type is reached from `item`.
    pub fn item_contains_unsigned_types(&self, item: &Type) -> (r: bool)
        ensures
            r == exists|t: TypeModel| #[trigger]
                self@.reaches(item@, t) && (t is UInt8 || t is UInt16 || t is UInt32
                    || t is UInt64),
    {
        let reached = self.iter_types_in_item(item);
        let mut i: usize = 0;
        while i < reached.len()
            invariant
                i <= reached@.len(),
                forall|t: TypeModel| #[trigger]
                    models_of(reached@).contains(t) <==> self@.reaches(item@, t),
                forall|j: int|
                    0 <= j < i ==> !(models_of(reached@)[j] is UInt8 || models_of(
                        reached@,
                    )[j] is UInt16 || models_of(reached@)[j] is UInt32 || models_of(
                        reached@,
                    )[j] is UInt64),
            decreases reached@.len() - i,
        {
            assert(models_of(reached@)[i as int] == reached@[i as int]@);
            match reached[i] {
                Type::UInt8 | Type::UInt16 | Type::UInt32 | Type::UInt64 => {
                    assert(models_of(reached@).contains(reached@[i as int]@));
                    return true;
                },
                _ => {},
            }
            i += 1;
        }
        proof {
            assert forall|t: TypeModel| #[trigger] self@.reaches(item@, t) implies !(t is UInt8
                || t is UInt16 || t is UInt32 || t is UInt64) by {
                assert(models_of(reached@).contains(t));
            }
        }
        false
    }
}

} // verus!

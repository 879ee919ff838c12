//! What the look-ups of [`crate::object`] amount to where looking has no side
//! effects, and how they relate to each other.
use vstd::prelude::*;

use crate::object::{
    Error, InterfaceScan, Object, ObjectCore, ObjectPtr, Value, INTERFACES_SWF_VERSION, MAX_PROTOTYPE_DEPTH,
};

verus! {

use crate::object::{
    call_method_outcome, found_on, found_value, get_outcome, in_proto_chain, instance_check_ends, instance_outcome,
    is_nth_proto, lemma_chain_stays_ended, nth_proto, proto_chain_ends, push_object, push_some, scan_outcome,
    search_outcome, usual_get_outcome,
};

/// `object` has a property `name` of its own in `state`.
pub open spec fn owns<T: ObjectCore>(object: Object<T>, name: Seq<char>, state: T::Activation) -> bool {
    object.repr.has_own_property_outcome(name, state, state, true)
}

/// In `state`, asking `object` whether it has a property `name` changes nothing
/// and has one answer.
pub open spec fn asking_is_pure<T: ObjectCore>(
    object: Object<T>,
    name: Seq<char>,
    state: T::Activation,
) -> bool {
    forall|after: T::Activation, found: bool| #[trigger]
        object.repr.has_own_property_outcome(name, state, after, found) ==> {
            &&& after == state
            &&& found == owns(object, name, state)
        }
}

/// In `state`, asking any of the first `count` objects on the chain that starts
/// with `object` whether it has a property `name` changes nothing and has one
/// answer.
pub open spec fn asking_chain_is_pure<T: ObjectCore>(
    object: Object<T>,
    name: Seq<char>,
    state: T::Activation,
    count: nat,
) -> bool {
    forall|step: nat|
        step < count ==> (#[trigger] nth_proto(object, state, step) matches Some(visited)
            ==> asking_is_pure(visited, name, state))
}

/// None of the first `count` objects on the chain that starts with `object` has
/// a property `name`.
pub open spec fn none_owns<T: ObjectCore>(
    object: Object<T>,
    name: Seq<char>,
    state: T::Activation,
    count: nat,
) -> bool {
    forall|step: nat|
        step < count ==> (#[trigger] nth_proto(object, state, step) matches Some(visited)
            ==> !owns(visited, name, state))
}

/// The chain from the prototype of an object is its chain, less the object.
proof fn lemma_chain_from_proto<T: ObjectCore>(object: Object<T>, state: T::Activation, steps: nat)
    ensures
        nth_proto(object, state, steps + 1) == match object.repr.proto_in(state) {
            Some(proto) => nth_proto(proto, state, steps),
            None => None,
        },
    decreases steps,
{
    if steps == 0 {
        assert(nth_proto(object, state, 0) == Some(object));
    } else {
        lemma_chain_from_proto(object, state, (steps - 1) as nat);
    }
}

/// A search that does not find the property on the next `count` objects goes on
/// behind them.
proof fn lemma_search_skips<T: ObjectCore>(
    object: Object<T>,
    depth: int,
    name: Seq<char>,
    this: Object<T>,
    before: T::Activation,
    after: T::Activation,
    result: Result<(Value<T>, Option<Object<T>>), Error<T::Failure>>,
    count: nat,
)
    requires
        asking_chain_is_pure(object, name, before, count),
        search_outcome(Some(object), depth, name, this, before, after, result),
        none_owns(object, name, before, count),
        0 <= depth,
        depth + count <= MAX_PROTOTYPE_DEPTH,
        count > 0 ==> nth_proto(object, before, (count - 1) as nat) is Some,
    ensures
        search_outcome(
            nth_proto(object, before, count),
            depth + count,
            name,
            this,
            before,
            after,
            result,
        ),
    decreases count,
{
    assert(nth_proto(object, before, 0) == Some(object));
    if count > 0 {
        assert(!owns(object, name, before));
        let next = object.repr.proto_in(before);
        assert(search_outcome(next, depth + 1, name, this, before, after, result));
        lemma_chain_from_proto(object, before, (count - 1) as nat);
        match next {
            Some(proto) => {
                assert forall|step: nat| step < count - 1 implies (#[trigger] nth_proto(
                    proto,
                    before,
                    step,
                ) matches Some(visited) ==> {
                    &&& asking_is_pure(visited, name, before)
                    &&& !owns(visited, name, before)
                }) by {
                    lemma_chain_from_proto(object, before, step);
                    assert(nth_proto(object, before, step + 1) == nth_proto(proto, before, step));
                }
                if count > 1 {
                    lemma_chain_from_proto(object, before, (count - 2) as nat);
                }
                lemma_search_skips(
                    proto,
                    depth + 1,
                    name,
                    this,
                    before,
                    after,
                    result,
                    (count - 1) as nat,
                );
            },
            None => {
                if count > 1 {
                    lemma_chain_from_proto(object, before, (count - 2) as nat);
                }
            },
        }
    }
}

/// The nearest object that has the property answers: where the object `steps`
/// up the chain has it, and none before it does, the search returns what the
/// property reads as there, and that object.
pub proof fn law_search_finds_nearest<T: ObjectCore>(
    object: Object<T>,
    name: Seq<char>,
    this: Object<T>,
    before: T::Activation,
    after: T::Activation,
    result: Result<(Value<T>, Option<Object<T>>), Error<T::Failure>>,
    steps: nat,
    holder: Object<T>,
)
    requires
        asking_chain_is_pure(object, name, before, steps + 1),
        search_outcome(Some(object), 0, name, this, before, after, result),
        steps < 255,
        none_owns(object, name, before, steps),
        nth_proto(object, before, steps) == Some(holder),
        owns(holder, name, before),
    ensures
        exists|local: Result<Value<T>, Error<T::Failure>>|
            {
                &&& #[trigger] holder.repr.get_local_outcome(name, this, before, after, local)
                &&& result == match local {
                    Ok(value) => Ok((value, Some(holder))),
                    Err(error) => Err(error),
                }
            },
{
    lemma_search_skips(object, 0, name, this, before, after, result, steps);
}

/// A property that no object on a chain of at most 255 objects has reads as
/// `undefined`, and no prototype is returned with it.
pub proof fn law_search_unresolved_is_undefined<T: ObjectCore>(
    object: Object<T>,
    name: Seq<char>,
    this: Object<T>,
    before: T::Activation,
    after: T::Activation,
    result: Result<(Value<T>, Option<Object<T>>), Error<T::Failure>>,
    length: nat,
)
    requires
        asking_chain_is_pure(object, name, before, length),
        search_outcome(Some(object), 0, name, this, before, after, result),
        0 < length <= 255,
        nth_proto(object, before, (length - 1) as nat) is Some,
        nth_proto(object, before, length) is None,
        none_owns(object, name, before, length),
    ensures
        after == before,
        result == Ok::<_, Error<T::Failure>>((Value::<T>::Undefined, None::<Object<T>>)),
{
    lemma_search_skips(object, 0, name, this, before, after, result, length);
}

/// A search that has visited 255 objects without success and finds one more
/// fails with the recursion limit. So does every search on a chain that runs in
/// a circle, unless an object of the circle has the property.
pub proof fn law_search_gives_up<T: ObjectCore>(
    object: Object<T>,
    name: Seq<char>,
    this: Object<T>,
    before: T::Activation,
    after: T::Activation,
    result: Result<(Value<T>, Option<Object<T>>), Error<T::Failure>>,
)
    requires
        asking_chain_is_pure(object, name, before, 255),
        search_outcome(Some(object), 0, name, this, before, after, result),
        nth_proto(object, before, 255) is Some,
        none_owns(object, name, before, 255),
    ensures
        after == before,
        result == Err::<(Value<T>, Option<Object<T>>), _>(
            Error::<T::Failure>::PrototypeRecursionLimit,
        ),
{
    assert(nth_proto(object, before, 254) is Some);
    lemma_search_skips(object, 0, name, this, before, after, result, 255);
}

/// The object that a search returns with a value is one of the first 255 on the
/// chain, and has the property.
pub proof fn law_search_holder_is_on_chain<T: ObjectCore>(
    object: Object<T>,
    name: Seq<char>,
    this: Object<T>,
    before: T::Activation,
    after: T::Activation,
    value: Value<T>,
    holder: Object<T>,
)
    requires
        asking_chain_is_pure(object, name, before, 255),
        search_outcome(
            Some(object),
            0,
            name,
            this,
            before,
            after,
            Ok::<_, Error<T::Failure>>((value, Some(holder))),
        ),
    ensures
        owns(holder, name, before),
        exists|steps: nat|
            steps < 255 && #[trigger] nth_proto(object, before, steps) == Some(
                holder,
            ),
{
    lemma_holder_is_on_chain(object, 0, name, this, before, after, value, holder);
}

proof fn lemma_holder_is_on_chain<T: ObjectCore>(
    object: Object<T>,
    depth: int,
    name: Seq<char>,
    this: Object<T>,
    before: T::Activation,
    after: T::Activation,
    value: Value<T>,
    holder: Object<T>,
)
    requires
        0 <= depth,
        asking_chain_is_pure(object, name, before, (MAX_PROTOTYPE_DEPTH - depth) as nat),
        search_outcome(
            Some(object),
            depth,
            name,
            this,
            before,
            after,
            Ok::<_, Error<T::Failure>>((value, Some(holder))),
        ),
    ensures
        owns(holder, name, before),
        exists|steps: nat|
            steps + depth < MAX_PROTOTYPE_DEPTH && #[trigger] nth_proto(object, before, steps)
                == Some(holder),
    decreases MAX_PROTOTYPE_DEPTH - depth,
{
    assert(nth_proto(object, before, 0) == Some(object));
    if owns(object, name, before) {
        assert(holder == object);
    } else {
        assert(search_outcome(
            object.repr.proto_in(before),
            depth + 1,
            name,
            this,
            before,
            after,
            Ok::<_, Error<T::Failure>>((value, Some(holder))),
        ));
        match object.repr.proto_in(before) {
            Some(proto) => {
                assert forall|step: nat| step < MAX_PROTOTYPE_DEPTH - depth - 1 implies (
                #[trigger] nth_proto(proto, before, step) matches Some(visited) ==> asking_is_pure(
                    visited,
                    name,
                    before,
                )) by {
                    lemma_chain_from_proto(object, before, step);
                    assert(nth_proto(object, before, step + 1) == nth_proto(proto, before, step));
                }
                lemma_holder_is_on_chain(
                    proto,
                    depth + 1,
                    name,
                    this,
                    before,
                    after,
                    value,
                    holder,
                );
                let steps = choose|steps: nat|
                    steps + depth + 1 < MAX_PROTOTYPE_DEPTH && #[trigger] nth_proto(
                        proto,
                        before,
                        steps,
                    ) == Some(holder);
                lemma_chain_from_proto(object, before, steps);
                assert(nth_proto(object, before, steps + 1) == Some(holder));
            },
            None => {},
        }
    }
}

/// A search that does not fail with the recursion limit comes to the same with
/// fewer objects visited.
proof fn lemma_search_from_lower_depth<T: ObjectCore>(
    proto: Option<Object<T>>,
    depth: int,
    name: Seq<char>,
    this: Object<T>,
    before: T::Activation,
    after: T::Activation,
    result: Result<(Value<T>, Option<Object<T>>), Error<T::Failure>>,
)
    requires
        search_outcome(proto, depth + 1, name, this, before, after, result),
        result != Err::<(Value<T>, Option<Object<T>>), _>(
            Error::<T::Failure>::PrototypeRecursionLimit,
        ),
    ensures
        search_outcome(proto, depth, name, this, before, after, result),
    decreases MAX_PROTOTYPE_DEPTH - depth,
{
    if let Some(object) = proto {
        if depth + 1 < MAX_PROTOTYPE_DEPTH {
            if exists|mid: T::Activation, local: Result<Value<T>, Error<T::Failure>>|
                {
                    &&& #[trigger] object.repr.has_own_property_outcome(name, before, mid, true)
                    &&& #[trigger] object.repr.get_local_outcome(name, this, mid, after, local)
                    &&& result == found_on(local, object)
                } {
            } else {
                let mid = choose|mid: T::Activation|
                    {
                        &&& #[trigger] object.repr.has_own_property_outcome(
                            name,
                            before,
                            mid,
                            false,
                        )
                        &&& search_outcome(
                            object.repr.proto_in(mid),
                            depth + 2,
                            name,
                            this,
                            mid,
                            after,
                            result,
                        )
                    };
                lemma_search_from_lower_depth(
                    object.repr.proto_in(mid),
                    depth + 1,
                    name,
                    this,
                    mid,
                    after,
                    result,
                );
            }
        }
    }
}

/// Reading a property off an object is a search that starts with the object
/// itself: whatever such a search comes to, short of the recursion limit,
/// reading may come to as well.
pub proof fn law_get_is_search_from_object<T: ObjectCore>(
    object: Object<T>,
    name: Seq<char>,
    before: T::Activation,
    after: T::Activation,
    found: Result<(Value<T>, Option<Object<T>>), Error<T::Failure>>,
)
    requires
        search_outcome(Some(object), 0, name, object, before, after, found),
        found != Err::<(Value<T>, Option<Object<T>>), _>(
            Error::<T::Failure>::PrototypeRecursionLimit,
        ),
    ensures
        usual_get_outcome(object, name, before, after, found_value(found)),
{
    if exists|mid: T::Activation, local: Result<Value<T>, Error<T::Failure>>|
        {
            &&& #[trigger] object.repr.has_own_property_outcome(name, before, mid, true)
            &&& #[trigger] object.repr.get_local_outcome(name, object, mid, after, local)
            &&& found == found_on(local, object)
        } {
        let (mid, local) = choose|mid: T::Activation, local: Result<Value<T>, Error<T::Failure>>|
            {
                &&& #[trigger] object.repr.has_own_property_outcome(name, before, mid, true)
                &&& #[trigger] object.repr.get_local_outcome(name, object, mid, after, local)
                &&& found == found_on(local, object)
            };
        assert(found_value(found) == local);
    } else {
        let mid = choose|mid: T::Activation|
            {
                &&& #[trigger] object.repr.has_own_property_outcome(name, before, mid, false)
                &&& search_outcome(
                    object.repr.proto_in(mid),
                    1,
                    name,
                    object,
                    mid,
                    after,
                    found,
                )
            };
        lemma_search_from_lower_depth(
            object.repr.proto_in(mid),
            0,
            name,
            object,
            mid,
            after,
            found,
        );
    }
}

/// `objects` are those that a search from `first` asks for `name` in vain, one
/// after the other and each once, and `states` the states before, between and
/// after its questions. The object that is asked next is the prototype that the
/// last one then has.
pub open spec fn is_walk<T: ObjectCore>(
    first: Option<Object<T>>,
    name: Seq<char>,
    objects: Seq<Object<T>>,
    states: Seq<T::Activation>,
) -> bool {
    &&& states.len() == objects.len() + 1
    &&& forall|i: int|
        0 <= i < objects.len() ==> {
            &&& Some(#[trigger] objects[i]) == next_on_walk(first, objects, states, i)
            &&& objects[i].repr.has_own_property_outcome(name, states[i], states[i + 1], false)
        }
}

/// The object that a search asks after `count` others.
pub open spec fn next_on_walk<T: ObjectCore>(
    first: Option<Object<T>>,
    objects: Seq<Object<T>>,
    states: Seq<T::Activation>,
    count: int,
) -> Option<Object<T>> {
    if count == 0 {
        first
    } else {
        objects[count - 1].repr.proto_in(states[count])
    }
}

/// What a search comes to after the objects that it asks in vain: nothing where
/// there is no other object; the recursion limit after `limit` objects; else what
/// the property reads as on the next object, which has it.
pub open spec fn walk_ends<T: ObjectCore>(
    first: Option<Object<T>>,
    name: Seq<char>,
    this: Object<T>,
    objects: Seq<Object<T>>,
    states: Seq<T::Activation>,
    limit: int,
    after: T::Activation,
    result: Result<(Value<T>, Option<Object<T>>), Error<T::Failure>>,
) -> bool {
    let end = states.last();
    match next_on_walk(first, objects, states, objects.len() as int) {
        None => {
            &&& after == end
            &&& result == Ok::<_, Error<T::Failure>>((Value::<T>::Undefined, None::<Object<T>>))
        },
        Some(object) => if objects.len() == limit {
            &&& after == end
            &&& result == Err::<(Value<T>, Option<Object<T>>), _>(
                Error::<T::Failure>::PrototypeRecursionLimit,
            )
        } else {
            exists|mid: T::Activation, local: Result<Value<T>, Error<T::Failure>>|
                {
                    &&& #[trigger] object.repr.has_own_property_outcome(name, end, mid, true)
                    &&& #[trigger] object.repr.get_local_outcome(name, this, mid, after, local)
                    &&& result == match local {
                        Ok(value) => Ok((value, Some(object))),
                        Err(error) => Err(error),
                    }
                }
        },
    }
}

proof fn lemma_search_is_walk<T: ObjectCore>(
    first: Option<Object<T>>,
    depth: int,
    name: Seq<char>,
    this: Object<T>,
    before: T::Activation,
    after: T::Activation,
    result: Result<(Value<T>, Option<Object<T>>), Error<T::Failure>>,
) -> (walk: (Seq<Object<T>>, Seq<T::Activation>))
    requires
        0 <= depth <= 255,
        search_outcome(first, depth, name, this, before, after, result),
    ensures
        is_walk(first, name, walk.0, walk.1),
        walk.1[0] == before,
        walk.0.len() <= 255 - depth,
        walk_ends(first, name, this, walk.0, walk.1, 255 - depth, after, result),
    decreases 255 - depth,
{
    let none = Seq::<Object<T>>::empty();
    match first {
        None => (none, seq![before]),
        Some(object) => if depth == 255 {
            (none, seq![before])
        } else if exists|mid: T::Activation, local: Result<Value<T>, Error<T::Failure>>|
            {
                &&& #[trigger] object.repr.has_own_property_outcome(name, before, mid, true)
                &&& #[trigger] object.repr.get_local_outcome(name, this, mid, after, local)
                &&& result == found_on(local, object)
            } {
            let (mid, local) = choose|
                mid: T::Activation,
                local: Result<Value<T>, Error<T::Failure>>,
            |
                {
                    &&& #[trigger] object.repr.has_own_property_outcome(name, before, mid, true)
                    &&& #[trigger] object.repr.get_local_outcome(name, this, mid, after, local)
                    &&& result == found_on(local, object)
                };
            let states = seq![before];
            assert(states.last() == before);
            assert(object.repr.has_own_property_outcome(name, states.last(), mid, true));
            assert(object.repr.get_local_outcome(name, this, mid, after, local));
            assert(walk_ends(first, name, this, none, states, 255 - depth, after, result));
            (none, states)
        } else {
            let mid = choose|mid: T::Activation|
                {
                    &&& #[trigger] object.repr.has_own_property_outcome(name, before, mid, false)
                    &&& search_outcome(
                        object.repr.proto_in(mid),
                        depth + 1,
                        name,
                        this,
                        mid,
                        after,
                        result,
                    )
                };
            let next = object.repr.proto_in(mid);
            let (rest, later) = lemma_search_is_walk(
                next,
                depth + 1,
                name,
                this,
                mid,
                after,
                result,
            );
            let objects = seq![object] + rest;
            let states = seq![before] + later;
            assert forall|i: int| 0 <= i < objects.len() implies {
                &&& Some(#[trigger] objects[i]) == next_on_walk(first, objects, states, i)
                &&& objects[i].repr.has_own_property_outcome(name, states[i], states[i + 1], false)
            } by {
                if i > 0 {
                    assert(objects[i] == rest[i - 1]);
                    assert(Some(rest[i - 1]) == next_on_walk(next, rest, later, i - 1));
                }
            }
            assert(next_on_walk(first, objects, states, objects.len() as int) == next_on_walk(
                next,
                rest,
                later,
                rest.len() as int,
            ));
            assert(states.last() == later.last());
            assert(walk_ends(first, name, this, objects, states, 255 - depth, after, result));
            (objects, states)
        },
    }
}

/// Whatever script code does, a search asks the objects of the chain one after
/// the other, each once, and at most 255 of them. It ends past the chain with
/// `undefined`, with a further object after 255, or on the first object that has
/// the property, with what it reads as there.
pub proof fn law_search_is_walk<T: ObjectCore>(
    first: Option<Object<T>>,
    name: Seq<char>,
    this: Object<T>,
    before: T::Activation,
    after: T::Activation,
    result: Result<(Value<T>, Option<Object<T>>), Error<T::Failure>>,
)
    requires
        search_outcome(first, 0, name, this, before, after, result),
    ensures
        exists|objects: Seq<Object<T>>, states: Seq<T::Activation>|
            {
                &&& #[trigger] is_walk(first, name, objects, states)
                &&& states[0] == before
                &&& objects.len() <= 255
                &&& walk_ends(first, name, this, objects, states, 255, after, result)
            },
{
    let (objects, states) = lemma_search_is_walk(first, 0, name, this, before, after, result);
    assert(is_walk(first, name, objects, states));
}

/// A method call calls what its search finds, whatever script code does: on
/// `object` as `this`, with the arguments that it was given, and with the object
/// that has the method as the base of `super`; a method that is not found is
/// called as `undefined`, without a base. A search that fails fails the call.
pub proof fn law_method_call_is_walk<T: ObjectCore>(
    object: Object<T>,
    name: Seq<char>,
    args: Seq<Value<T>>,
    before: T::Activation,
    after: T::Activation,
    result: Result<Value<T>, Error<T::Failure>>,
)
    requires
        call_method_outcome(object, name, args, before, after, result),
    ensures
        exists|
            objects: Seq<Object<T>>,
            states: Seq<T::Activation>,
            mid: T::Activation,
            found: Result<(Value<T>, Option<Object<T>>), Error<T::Failure>>,
        |
            {
                &&& #[trigger] is_walk(Some(object), name, objects, states)
                &&& states[0] == before
                &&& objects.len() <= 255
                &&& #[trigger] walk_ends(
                    Some(object),
                    name,
                    object,
                    objects,
                    states,
                    255,
                    mid,
                    found,
                )
                &&& match found {
                    Ok((method, base)) => T::call_value_outcome(
                        method,
                        name,
                        object,
                        base,
                        args,
                        mid,
                        after,
                        result,
                    ),
                    Err(error) => after == mid && result == Err::<Value<T>, _>(error),
                }
            },
{
    let (mid, found) = choose|
        mid: T::Activation,
        found: Result<(Value<T>, Option<Object<T>>), Error<T::Failure>>,
    |
        {
            &&& #[trigger] search_outcome(Some(object), 0, name, object, before, mid, found)
            &&& match found {
                Ok((method, base)) => T::call_value_outcome(
                    method,
                    name,
                    object,
                    base,
                    args,
                    mid,
                    after,
                    result,
                ),
                Err(error) => after == mid && result == Err::<Value<T>, _>(error),
            }
        };
    let (objects, states) = lemma_search_is_walk(
        Some(object),
        0,
        name,
        object,
        before,
        mid,
        found,
    );
    assert(is_walk(Some(object), name, objects, states));
    assert(walk_ends(Some(object), name, object, objects, states, 255, mid, found));
}

/// The nearest object that has the method is the base of `super`: where the
/// object `steps` up the chain has it, and none before it does, what the method
/// reads as there is called on `object` as `this`, with the arguments that were
/// given and exactly that object as the base. Where reading it fails, so does the
/// call.
pub proof fn law_nearest_method_is_called<T: ObjectCore>(
    object: Object<T>,
    name: Seq<char>,
    args: Seq<Value<T>>,
    before: T::Activation,
    after: T::Activation,
    result: Result<Value<T>, Error<T::Failure>>,
    steps: nat,
    holder: Object<T>,
)
    requires
        asking_chain_is_pure(object, name, before, steps + 1),
        call_method_outcome(object, name, args, before, after, result),
        steps < 255,
        none_owns(object, name, before, steps),
        nth_proto(object, before, steps) == Some(holder),
        owns(holder, name, before),
    ensures
        exists|mid: T::Activation, local: Result<Value<T>, Error<T::Failure>>|
            {
                &&& #[trigger] holder.repr.get_local_outcome(name, object, before, mid, local)
                &&& match local {
                    Ok(method) => T::call_value_outcome(
                        method,
                        name,
                        object,
                        Some(holder),
                        args,
                        mid,
                        after,
                        result,
                    ),
                    Err(error) => after == mid && result == Err::<Value<T>, _>(error),
                }
            },
{
    let (mid, found) = choose|
        mid: T::Activation,
        found: Result<(Value<T>, Option<Object<T>>), Error<T::Failure>>,
    |
        {
            &&& #[trigger] search_outcome(Some(object), 0, name, object, before, mid, found)
            &&& match found {
                Ok((method, base)) => T::call_value_outcome(
                    method,
                    name,
                    object,
                    base,
                    args,
                    mid,
                    after,
                    result,
                ),
                Err(error) => after == mid && result == Err::<Value<T>, _>(error),
            }
        };
    law_search_finds_nearest(object, name, object, before, mid, found, steps, holder);
    let local = choose|local: Result<Value<T>, Error<T::Failure>>|
        {
            &&& #[trigger] holder.repr.get_local_outcome(name, object, before, mid, local)
            &&& found == match local {
                Ok(value) => Ok((value, Some(holder))),
                Err(error) => Err(error),
            }
        };
    assert(holder.repr.get_local_outcome(name, object, before, mid, local));
}

/// A method that no object on a chain of at most 255 objects has is called as
/// `undefined`, on `object` as `this` and without a base of `super`.
pub proof fn law_missing_method_is_undefined<T: ObjectCore>(
    object: Object<T>,
    name: Seq<char>,
    args: Seq<Value<T>>,
    before: T::Activation,
    after: T::Activation,
    result: Result<Value<T>, Error<T::Failure>>,
    length: nat,
)
    requires
        asking_chain_is_pure(object, name, before, length),
        call_method_outcome(object, name, args, before, after, result),
        0 < length <= 255,
        nth_proto(object, before, (length - 1) as nat) is Some,
        nth_proto(object, before, length) is None,
        none_owns(object, name, before, length),
    ensures
        T::call_value_outcome(
            Value::Undefined,
            name,
            object,
            None,
            args,
            before,
            after,
            result,
        ),
{
    let (mid, found) = choose|
        mid: T::Activation,
        found: Result<(Value<T>, Option<Object<T>>), Error<T::Failure>>,
    |
        {
            &&& #[trigger] search_outcome(Some(object), 0, name, object, before, mid, found)
            &&& match found {
                Ok((method, base)) => T::call_value_outcome(
                    method,
                    name,
                    object,
                    base,
                    args,
                    mid,
                    after,
                    result,
                ),
                Err(error) => after == mid && result == Err::<Value<T>, _>(error),
            }
        };
    law_search_unresolved_is_undefined(object, name, object, before, mid, found, length);
}

/// A method that none of 255 objects has, with a further one on the chain, is not
/// called: the call fails with the recursion limit and changes nothing.
pub proof fn law_method_call_gives_up<T: ObjectCore>(
    object: Object<T>,
    name: Seq<char>,
    args: Seq<Value<T>>,
    before: T::Activation,
    after: T::Activation,
    result: Result<Value<T>, Error<T::Failure>>,
)
    requires
        asking_chain_is_pure(object, name, before, 255),
        call_method_outcome(object, name, args, before, after, result),
        nth_proto(object, before, 255) is Some,
        none_owns(object, name, before, 255),
    ensures
        after == before,
        result == Err::<Value<T>, _>(Error::<T::Failure>::PrototypeRecursionLimit),
{
    let (mid, found) = choose|
        mid: T::Activation,
        found: Result<(Value<T>, Option<Object<T>>), Error<T::Failure>>,
    |
        {
            &&& #[trigger] search_outcome(Some(object), 0, name, object, before, mid, found)
            &&& match found {
                Ok((method, base)) => T::call_value_outcome(
                    method,
                    name,
                    object,
                    base,
                    args,
                    mid,
                    after,
                    result,
                ),
                Err(error) => after == mid && result == Err::<Value<T>, _>(error),
            }
        };
    law_search_gives_up(object, name, object, before, mid, found);
}

/// The questions about the chain from the prototype of an object are those about
/// its own chain, less the object.
proof fn lemma_questions_from_proto<T: ObjectCore>(
    object: Object<T>,
    name: Seq<char>,
    state: T::Activation,
    proto: Object<T>,
    count: nat,
)
    requires
        object.repr.proto_in(state) == Some(proto),
    ensures
        asking_chain_is_pure(object, name, state, count + 1) ==> asking_chain_is_pure(
            proto,
            name,
            state,
            count,
        ),
        none_owns(object, name, state, count + 1) ==> none_owns(proto, name, state, count),
        nth_proto(object, state, count + 1) == nth_proto(proto, state, count),
{
    lemma_chain_from_proto(object, state, count);
    assert forall|step: nat| step < count implies #[trigger] nth_proto(proto, state, step)
        == nth_proto(object, state, step + 1) by {
        lemma_chain_from_proto(object, state, step);
    }
}

/// Reading a property off an object reads it off the nearest object that has it:
/// the object itself, or one of the 255 that follow on its chain, with `object`
/// as `this`.
pub proof fn law_get_reads_nearest<T: ObjectCore>(
    object: Object<T>,
    name: Seq<char>,
    before: T::Activation,
    after: T::Activation,
    result: Result<Value<T>, Error<T::Failure>>,
    steps: nat,
    holder: Object<T>,
)
    requires
        asking_chain_is_pure(object, name, before, steps + 1),
        usual_get_outcome(object, name, before, after, result),
        steps <= 255,
        none_owns(object, name, before, steps),
        nth_proto(object, before, steps) == Some(holder),
        owns(holder, name, before),
    ensures
        holder.repr.get_local_outcome(name, object, before, after, result),
{
    assert(nth_proto(object, before, 0) == Some(object));
    assert(asking_is_pure(object, name, before));
    if steps > 0 {
        assert(!owns(object, name, before));
        let found = choose|found: Result<(Value<T>, Option<Object<T>>), Error<T::Failure>>|
            {
                &&& #[trigger] search_outcome(
                    object.repr.proto_in(before),
                    0,
                    name,
                    object,
                    before,
                    after,
                    found,
                )
                &&& result == found_value(found)
            };
        lemma_chain_from_proto(object, before, (steps - 1) as nat);
        let proto = object.repr.proto_in(before)->0;
        lemma_questions_from_proto(object, name, before, proto, steps);
        lemma_questions_from_proto(object, name, before, proto, (steps - 1) as nat);
        law_search_finds_nearest(
            proto,
            name,
            object,
            before,
            after,
            found,
            (steps - 1) as nat,
            holder,
        );
    }
}

/// A property that no object on a chain of at most 256 objects has reads as
/// `undefined`, and reading it changes nothing.
pub proof fn law_get_unresolved_is_undefined<T: ObjectCore>(
    object: Object<T>,
    name: Seq<char>,
    before: T::Activation,
    after: T::Activation,
    result: Result<Value<T>, Error<T::Failure>>,
    length: nat,
)
    requires
        asking_chain_is_pure(object, name, before, length),
        usual_get_outcome(object, name, before, after, result),
        0 < length <= 256,
        nth_proto(object, before, (length - 1) as nat) is Some,
        nth_proto(object, before, length) is None,
        none_owns(object, name, before, length),
    ensures
        after == before,
        result == Ok::<_, Error<T::Failure>>(Value::<T>::Undefined),
{
    assert(nth_proto(object, before, 0) == Some(object));
    assert(asking_is_pure(object, name, before));
    assert(!owns(object, name, before));
    let found = choose|found: Result<(Value<T>, Option<Object<T>>), Error<T::Failure>>|
        {
            &&& #[trigger] search_outcome(
                object.repr.proto_in(before),
                0,
                name,
                object,
                before,
                after,
                found,
            )
            &&& result == found_value(found)
        };
    lemma_chain_from_proto(object, before, (length - 1) as nat);
    if length > 1 {
        lemma_chain_from_proto(object, before, (length - 2) as nat);
        let proto = object.repr.proto_in(before)->0;
        lemma_questions_from_proto(object, name, before, proto, (length - 1) as nat);
        law_search_unresolved_is_undefined(
            proto,
            name,
            object,
            before,
            after,
            found,
            (length - 1) as nat,
        );
    }
}

/// A property that neither the object nor any of the 255 that follow on its chain
/// has, with a further one on the chain, cannot be read: reading it fails with
/// the recursion limit and changes nothing.
pub proof fn law_get_gives_up<T: ObjectCore>(
    object: Object<T>,
    name: Seq<char>,
    before: T::Activation,
    after: T::Activation,
    result: Result<Value<T>, Error<T::Failure>>,
)
    requires
        asking_chain_is_pure(object, name, before, 256),
        usual_get_outcome(object, name, before, after, result),
        nth_proto(object, before, 256) is Some,
        none_owns(object, name, before, 256),
    ensures
        after == before,
        result == Err::<Value<T>, _>(Error::<T::Failure>::PrototypeRecursionLimit),
{
    assert(nth_proto(object, before, 0) == Some(object));
    assert(asking_is_pure(object, name, before));
    assert(!owns(object, name, before));
    let found = choose|found: Result<(Value<T>, Option<Object<T>>), Error<T::Failure>>|
        {
            &&& #[trigger] search_outcome(
                object.repr.proto_in(before),
                0,
                name,
                object,
                before,
                after,
                found,
            )
            &&& result == found_value(found)
        };
    lemma_chain_from_proto(object, before, 255);
    let proto = object.repr.proto_in(before)->0;
    lemma_questions_from_proto(object, name, before, proto, 255);
    law_search_gives_up(proto, name, object, before, after, found);
}

/// Reading a property asks the object itself first. Where it has the property, it
/// is read there; where not, whatever script code does, what a search from the
/// prototype that the object then has finds is read.
pub proof fn law_get_is_walk<T: ObjectCore>(
    object: Object<T>,
    name: Seq<char>,
    before: T::Activation,
    after: T::Activation,
    result: Result<Value<T>, Error<T::Failure>>,
)
    requires
        usual_get_outcome(object, name, before, after, result),
    ensures
        exists|
            objects: Seq<Object<T>>,
            states: Seq<T::Activation>,
            found: Result<(Value<T>, Option<Object<T>>), Error<T::Failure>>,
        |
            {
                &&& #[trigger] is_walk(Some(object), name, objects, states)
                &&& states[0] == before
                &&& objects.len() <= 256
                &&& #[trigger] walk_ends(
                    Some(object),
                    name,
                    object,
                    objects,
                    states,
                    256,
                    after,
                    found,
                )
                &&& result == match found {
                    Ok((value, _)) => Ok(value),
                    Err(error) => Err(error),
                }
            },
{
    let first = Some(object);
    if exists|mid: T::Activation|
        {
            &&& #[trigger] object.repr.has_own_property_outcome(name, before, mid, true)
            &&& object.repr.get_local_outcome(name, object, mid, after, result)
        } {
        let found: Result<(Value<T>, Option<Object<T>>), Error<T::Failure>> = match result {
            Ok(value) => Ok((value, first)),
            Err(error) => Err(error),
        };
        let none = Seq::<Object<T>>::empty();
        let states = seq![before];
        assert(states.last() == before);
        let mid = choose|mid: T::Activation|
            {
                &&& #[trigger] object.repr.has_own_property_outcome(name, before, mid, true)
                &&& object.repr.get_local_outcome(name, object, mid, after, result)
            };
        assert(object.repr.has_own_property_outcome(name, states.last(), mid, true));
        assert(object.repr.get_local_outcome(name, object, mid, after, result));
        assert(is_walk(first, name, none, states));
        assert(walk_ends(first, name, object, none, states, 256, after, found));
    } else {
        let (mid, found) = choose|
            mid: T::Activation,
            found: Result<(Value<T>, Option<Object<T>>), Error<T::Failure>>,
        |
            {
                &&& #[trigger] object.repr.has_own_property_outcome(name, before, mid, false)
                &&& #[trigger] search_outcome(
                    object.repr.proto_in(mid),
                    0,
                    name,
                    object,
                    mid,
                    after,
                    found,
                )
                &&& result == found_value(found)
            };
        let next = object.repr.proto_in(mid);
        let (rest, later) = lemma_search_is_walk(next, 0, name, object, mid, after, found);
        let objects = seq![object] + rest;
        let states = seq![before] + later;
        assert forall|i: int| 0 <= i < objects.len() implies {
            &&& Some(#[trigger] objects[i]) == next_on_walk(first, objects, states, i)
            &&& objects[i].repr.has_own_property_outcome(name, states[i], states[i + 1], false)
        } by {
            if i > 0 {
                assert(objects[i] == rest[i - 1]);
                assert(Some(rest[i - 1]) == next_on_walk(next, rest, later, i - 1));
            }
        }
        assert(next_on_walk(first, objects, states, objects.len() as int) == next_on_walk(
            next,
            rest,
            later,
            rest.len() as int,
        ));
        assert(states.last() == later.last());
        assert(is_walk(first, name, objects, states));
        assert(walk_ends(first, name, object, objects, states, 256, after, found));
    }
}

/// An object that does not read properties in a way of its own reads them in the
/// usual way.
pub proof fn law_get_is_usual<T: ObjectCore>(
    object: Object<T>,
    name: Seq<char>,
    before: T::Activation,
    after: T::Activation,
    result: Result<Value<T>, Error<T::Failure>>,
)
    requires
        get_outcome(object, name, before, after, result),
        !object.repr.own_get_outcome(name, before, after, result),
    ensures
        usual_get_outcome(object, name, before, after, result),
{
}

/// What is on the prototype chain of an object is its prototype, or on the chain
/// of its prototype; an object is not on its own chain for being itself.
pub proof fn law_prototype_chain_unfolds<T: ObjectCore>(
    ptr: ObjectPtr,
    object: Object<T>,
    state: T::Activation,
)
    ensures
        in_proto_chain(ptr, object, state) == match object.repr.proto_in(state) {
            Some(proto) => proto.repr.ptr() == ptr || in_proto_chain(ptr, proto, state),
            None => false,
        },
{
    assert(nth_proto(object, state, 0) == Some(object));
    assert(nth_proto(object, state, 1) == object.repr.proto_in(state));
    match object.repr.proto_in(state) {
        Some(proto) => {
            assert forall|steps: nat| #[trigger] is_nth_proto(ptr, proto, state, steps)
                == is_nth_proto(ptr, object, state, steps + 1) by {
                lemma_chain_from_proto(object, state, steps);
            }
            if proto.repr.ptr() == ptr {
                assert(is_nth_proto(ptr, object, state, 1));
            }
            if in_proto_chain(ptr, proto, state) {
                let steps = choose|steps: nat|
                    steps > 0 && #[trigger] is_nth_proto(ptr, proto, state, steps);
                assert(is_nth_proto(ptr, object, state, steps + 1));
            }
            if in_proto_chain(ptr, object, state) {
                let steps = choose|steps: nat|
                    steps > 0 && #[trigger] is_nth_proto(ptr, object, state, steps);
                assert(is_nth_proto(ptr, proto, state, (steps - 1) as nat));
            }
        },
        None => {
            assert forall|steps: nat| steps > 0 implies !#[trigger] is_nth_proto(
                ptr,
                object,
                state,
                steps,
            ) by {
                lemma_chain_from_proto(object, state, (steps - 1) as nat);
            }
        },
    }
}

/// All handles to the object that `object` refers to have its prototype.
pub open spec fn handles_agree<T: ObjectCore>(object: Object<T>, state: T::Activation) -> bool {
    forall|other: Object<T>|
        other.repr.ptr() == object.repr.ptr() ==> #[trigger] other.repr.proto_in(state)
            == object.repr.proto_in(state)
}

proof fn lemma_chains_join<T: ObjectCore>(
    a: Object<T>,
    b: Object<T>,
    state: T::Activation,
    up: nat,
    steps: nat,
)
    requires
        nth_proto(a, state, up) matches Some(met) && met.repr.ptr() == b.repr.ptr(),
        handles_agree(b, state),
        steps > 0,
    ensures
        nth_proto(a, state, up + steps) == nth_proto(b, state, steps),
    decreases steps,
{
    if steps == 1 {
        assert(nth_proto(b, state, 0) == Some(b));
        assert(nth_proto(b, state, 1) == b.repr.proto_in(state));
    } else {
        lemma_chains_join(a, b, state, up, (steps - 1) as nat);
    }
}

/// Being on a prototype chain is transitive: what is on the chain of an object
/// that is on a chain is on that chain too.
pub proof fn law_prototype_chain_is_transitive<T: ObjectCore>(
    a: Object<T>,
    b: Object<T>,
    c: Object<T>,
    state: T::Activation,
)
    requires
        handles_agree(b, state),
        in_proto_chain(a.repr.ptr(), b, state),
        in_proto_chain(b.repr.ptr(), c, state),
    ensures
        in_proto_chain(a.repr.ptr(), c, state),
{
    let steps = choose|steps: nat|
        steps > 0 && #[trigger] is_nth_proto(a.repr.ptr(), b, state, steps);
    let up = choose|up: nat| up > 0 && #[trigger] is_nth_proto(b.repr.ptr(), c, state, up);
    lemma_chains_join(c, b, state, up, steps);
    assert(is_nth_proto(a.repr.ptr(), c, state, up + steps));
}

/// The prototype chain of `object` comes to an end.
pub open spec fn chain_is_finite<T: ObjectCore>(object: Object<T>, state: T::Activation) -> bool {
    exists|end: nat| #[trigger] nth_proto(object, state, end) is None
}

/// A chain that comes back to its first object after `period` steps does not end
/// within `steps` steps.
proof fn lemma_circle_goes_on<T: ObjectCore>(
    object: Object<T>,
    state: T::Activation,
    period: nat,
    steps: nat,
)
    requires
        period > 0,
        is_nth_proto(object.repr.ptr(), object, state, period),
        handles_agree(object, state),
    ensures
        nth_proto(object, state, steps) is Some,
    decreases steps,
{
    if steps <= period {
        if nth_proto(object, state, steps) is None {
            lemma_chain_stays_ended(object, state, steps, period);
        }
    } else {
        let back = (steps - period) as nat;
        lemma_circle_goes_on(object, state, period, back);
        lemma_chains_join(object, object, state, period, back);
    }
}

/// On a finite chain no object is its own prototype.
pub proof fn law_no_object_is_its_own_prototype<T: ObjectCore>(
    object: Object<T>,
    state: T::Activation,
)
    requires
        handles_agree(object, state),
        chain_is_finite(object, state),
    ensures
        !in_proto_chain(object.repr.ptr(), object, state),
{
    if in_proto_chain(object.repr.ptr(), object, state) {
        let period = choose|steps: nat|
            steps > 0 && #[trigger] is_nth_proto(object.repr.ptr(), object, state, steps);
        let end = choose|end: nat| #[trigger] nth_proto(object, state, end) is None;
        lemma_circle_goes_on(object, state, period, end);
    }
}

/// Of two objects with finite chains, at most one is a prototype of the other.
pub proof fn law_prototype_chain_is_asymmetric<T: ObjectCore>(
    a: Object<T>,
    b: Object<T>,
    state: T::Activation,
)
    requires
        handles_agree(a, state),
        handles_agree(b, state),
        chain_is_finite(a, state),
        chain_is_finite(b, state),
        in_proto_chain(a.repr.ptr(), b, state),
    ensures
        !in_proto_chain(b.repr.ptr(), a, state),
{
    if in_proto_chain(b.repr.ptr(), a, state) {
        law_prototype_chain_is_transitive(a, b, a, state);
        law_no_object_is_its_own_prototype(a, state);
    }
}

/// `rank` falls with every step on the prototype chain of `object`.
pub open spec fn chain_is_ranked<T: ObjectCore>(
    object: Object<T>,
    state: T::Activation,
    rank: spec_fn(Object<T>) -> nat,
) -> bool {
    forall|steps: nat| #[trigger] nth_proto(object, state, steps) matches Some(reached) ==> (
    reached.repr.proto_in(state) matches Some(proto) ==> rank(proto) < rank(reached))
}

/// A chain on which some rank falls with every step ends.
pub proof fn law_ranked_chain_ends<T: ObjectCore>(
    ptr: ObjectPtr,
    object: Object<T>,
    state: T::Activation,
    rank: spec_fn(Object<T>) -> nat,
)
    requires
        chain_is_ranked(object, state, rank),
    ensures
        chain_is_finite(object, state),
        proto_chain_ends(ptr, object, state),
{
    lemma_ranked_chain_ends(object, state, rank, 0);
}

proof fn lemma_ranked_chain_ends<T: ObjectCore>(
    object: Object<T>,
    state: T::Activation,
    rank: spec_fn(Object<T>) -> nat,
    steps: nat,
)
    requires
        chain_is_ranked(object, state, rank),
        steps <= rank(object),
        nth_proto(object, state, steps) matches Some(reached) ==> rank(reached) + steps <= rank(
            object,
        ),
    ensures
        exists|end: nat| #[trigger] nth_proto(object, state, end) is None,
    decreases rank(object) + 1 - steps,
{
    match nth_proto(object, state, steps) {
        None => {},
        Some(reached) => {
            assert(nth_proto(object, state, steps + 1) == reached.repr.proto_in(state));
            if reached.repr.proto_in(state) is Some {
                lemma_ranked_chain_ends(object, state, rank, steps + 1);
            }
        },
    }
}

/// Before interfaces, an object is an instance of a class exactly when the
/// prototype of the class is on its prototype chain, and finding that out
/// changes nothing.
pub proof fn law_instance_without_interfaces<T: ObjectCore>(
    object: Object<T>,
    constructor: Object<T>,
    prototype: Object<T>,
    fuel: nat,
    before: T::Activation,
    after: T::Activation,
    result: Result<bool, Error<T::Failure>>,
)
    requires
        T::swf_version_in(before) < 7,
        instance_outcome(
            fuel,
            push_some(Seq::empty(), object.repr.proto_in(before)),
            constructor,
            prototype,
            before,
            after,
            result,
        ),
    ensures
        after == before,
        result == Ok::<_, Error<T::Failure>>(
            in_proto_chain(prototype.repr.ptr(), object, before),
        ),
    decreases fuel,
{
    let ptr = prototype.repr.ptr();
    let stack = push_some(Seq::<Object<T>>::empty(), object.repr.proto_in(before));
    assert(nth_proto(object, before, 0) == Some(object));
    assert(nth_proto(object, before, 1) == object.repr.proto_in(before));
    match object.repr.proto_in(before) {
        None => {
            assert forall|steps: nat| steps > 0 implies !#[trigger] is_nth_proto(
                ptr,
                object,
                before,
                steps,
            ) by {
                lemma_chain_from_proto(object, before, (steps - 1) as nat);
            }
        },
        Some(proto) => {
            assert(stack.last() == proto);
            assert(stack.drop_last() =~= Seq::<Object<T>>::empty());
            if proto.repr.ptr() == ptr {
                assert(is_nth_proto(ptr, object, before, 1));
            } else {
                law_instance_without_interfaces(
                    proto,
                    constructor,
                    prototype,
                    (fuel - 1) as nat,
                    before,
                    after,
                    result,
                );
                assert forall|steps: nat| steps > 0 implies #[trigger] is_nth_proto(
                    ptr,
                    proto,
                    before,
                    steps,
                ) == is_nth_proto(ptr, object, before, steps + 1) by {
                    lemma_chain_from_proto(object, before, steps);
                }
                if in_proto_chain(ptr, object, before) {
                    let steps = choose|steps: nat|
                        steps > 0 && #[trigger] is_nth_proto(ptr, object, before, steps);
                    assert(steps > 1);
                    assert(is_nth_proto(ptr, proto, before, (steps - 1) as nat));
                }
            }
        },
    }
}

/// In `state`, reading the `prototype` of any of `interfaces` changes nothing and
/// has one result, `read`.
pub open spec fn prototypes_are<T: ObjectCore>(
    interfaces: Seq<Object<T>>,
    state: T::Activation,
    read: spec_fn(Object<T>) -> Value<T>,
) -> bool {
    forall|i: int, after: T::Activation, got: Result<Value<T>, Error<T::Failure>>|
        0 <= i < interfaces.len() && #[trigger] get_outcome(
            interfaces[i],
            "prototype"@,
            state,
            after,
            got,
        ) ==> {
            &&& after == state
            &&& got == Ok::<_, Error<T::Failure>>(read(interfaces[i]))
        }
}

/// `next` is a prototype that an instance of `object` also has: that of
/// `object`, or that of one of its interfaces.
pub open spec fn is_next<T: ObjectCore>(
    object: Object<T>,
    next: Object<T>,
    state: T::Activation,
    read: spec_fn(Object<T>) -> Value<T>,
) -> bool {
    ||| object.repr.proto_in(state) == Some(next)
    ||| exists|i: int|
        {
            &&& 0 <= i < object.repr.interfaces_in(state).len()
            &&& read(#[trigger] object.repr.interfaces_in(state)[i]) == Value::Object(next)
        }
}

/// `other` is `steps` steps from `start`, over prototypes and the prototypes of
/// interfaces.
pub open spec fn reaches<T: ObjectCore>(
    start: Object<T>,
    other: Object<T>,
    steps: nat,
    state: T::Activation,
    read: spec_fn(Object<T>) -> Value<T>,
) -> bool
    decreases steps,
{
    if steps == 0 {
        other == start
    } else {
        exists|mid: Object<T>| #[trigger]
            is_next(mid, other, state, read) && reaches(start, mid, (steps - 1) as nat, state, read)
    }
}

/// `other` is some number of steps from `start`.
pub open spec fn is_reached<T: ObjectCore>(
    start: Object<T>,
    other: Object<T>,
    state: T::Activation,
    read: spec_fn(Object<T>) -> Value<T>,
) -> bool {
    exists|steps: nat| #[trigger] reaches(start, other, steps, state, read)
}

proof fn lemma_next_is_reached<T: ObjectCore>(
    start: Object<T>,
    object: Object<T>,
    next: Object<T>,
    state: T::Activation,
    read: spec_fn(Object<T>) -> Value<T>,
)
    requires
        is_reached(start, object, state, read),
        is_next(object, next, state, read),
    ensures
        is_reached(start, next, state, read),
{
    let steps = choose|steps: nat| #[trigger] reaches(start, object, steps, state, read);
    assert(reaches(start, next, steps + 1, state, read));
}

/// In `state`, reading the `prototype` of an interface of an object that is
/// reached from `start` changes nothing and has one result, `read`.
pub open spec fn interface_prototypes_are<T: ObjectCore>(
    start: Object<T>,
    state: T::Activation,
    read: spec_fn(Object<T>) -> Value<T>,
) -> bool {
    forall|object: Object<T>| #[trigger]
        is_reached(start, object, state, read) ==> prototypes_are(
            object.repr.interfaces_in(state),
            state,
            read,
        )
}

/// Some interface of `object` is `constructor`.
pub open spec fn implements<T: ObjectCore>(
    object: Object<T>,
    constructor: Object<T>,
    state: T::Activation,
) -> bool {
    exists|i: int|
        {
            &&& 0 <= i < object.repr.interfaces_in(state).len()
            &&& (#[trigger] object.repr.interfaces_in(state)[i]).repr.ptr()
                == constructor.repr.ptr()
        }
}

/// Within `length` steps from `object`, over prototypes and the prototypes of
/// interfaces, there is the prototype of the class or an object that implements
/// its constructor.
pub open spec fn leads_to_class<T: ObjectCore>(
    object: Object<T>,
    length: nat,
    constructor: Object<T>,
    prototype: Object<T>,
    state: T::Activation,
    read: spec_fn(Object<T>) -> Value<T>,
) -> bool
    decreases length,
{
    ||| object.repr.ptr() == prototype.repr.ptr()
    ||| implements(object, constructor, state)
    ||| length > 0 && exists|next: Object<T>| #[trigger]
        is_next(object, next, state, read) && leads_to_class(
            next,
            (length - 1) as nat,
            constructor,
            prototype,
            state,
            read,
        )
}

/// What a look at interfaces comes to where reading has no side effects: the
/// constructor is among them, or their prototypes are on the stack.
proof fn lemma_pure_scan<T: ObjectCore>(
    interfaces: Seq<Object<T>>,
    from: int,
    stack: Seq<Object<T>>,
    constructor: Object<T>,
    before: T::Activation,
    after: T::Activation,
    scan: InterfaceScan<T, T::Failure>,
    read: spec_fn(Object<T>) -> Value<T>,
)
    requires
        prototypes_are(interfaces, before, read),
        scan_outcome(interfaces, from, stack, constructor, before, after, scan),
        0 <= from <= interfaces.len(),
    ensures
        after == before,
        match scan {
            InterfaceScan::Implements => exists|i: int|
                {
                    &&& from <= i < interfaces.len()
                    &&& (#[trigger] interfaces[i]).repr.ptr() == constructor.repr.ptr()
                },
            InterfaceScan::Failed(_) => false,
            InterfaceScan::Pending(pushed) => {
                &&& forall|i: int|
                    from <= i < interfaces.len() ==> (#[trigger] interfaces[i]).repr.ptr()
                        != constructor.repr.ptr()
                &&& forall|o: Object<T>| #[trigger]
                    pushed.contains(o) ==> stack.contains(o) || exists|i: int|
                        {
                            &&& from <= i < interfaces.len()
                            &&& read(#[trigger] interfaces[i]) == Value::Object(o)
                        }
                &&& forall|o: Object<T>| #[trigger] stack.contains(o) ==> pushed.contains(o)
                &&& forall|i: int|
                    from <= i < interfaces.len() ==> (read(#[trigger] interfaces[i]) matches
                        Value::Object(o) ==> pushed.contains(o))
            },
        },
    decreases interfaces.len() - from,
{
    if from < interfaces.len() && interfaces[from].repr.ptr() != constructor.repr.ptr() {
        let value = read(interfaces[from]);
        let next = push_object(stack, value);
        let (mid, got) = choose|mid: T::Activation, got: Result<Value<T>, Error<T::Failure>>|
            {
                &&& #[trigger] get_outcome(interfaces[from], "prototype"@, before, mid, got)
                &&& match got {
                    Ok(value) => scan_outcome(
                        interfaces,
                        from + 1,
                        push_object(stack, value),
                        constructor,
                        mid,
                        after,
                        scan,
                    ),
                    Err(error) => {
                        &&& after == mid
                        &&& scan == InterfaceScan::<T, T::Failure>::Failed(error)
                    },
                }
            };
        assert(got == Ok::<_, Error<T::Failure>>(value));
        lemma_pure_scan(interfaces, from + 1, next, constructor, before, after, scan, read);
        if let Value::Object(o) = value {
            assert(next[stack.len() as int] == o);
            assert(next.contains(o));
            assert forall|other: Object<T>| #[trigger] stack.contains(other) implies next.contains(
                other,
            ) by {
                let at = choose|at: int| 0 <= at < stack.len() && stack[at] == other;
                assert(next[at] == other);
            }
            assert forall|other: Object<T>| #[trigger] next.contains(other) implies stack.contains(
                other,
            ) || other == o by {
                let at = choose|at: int| 0 <= at < next.len() && next[at] == other;
                if at < stack.len() {
                    assert(stack[at] == other);
                }
            }
        }
        if let InterfaceScan::Pending(pushed) = scan {
            assert forall|o: Object<T>| #[trigger] pushed.contains(o) implies stack.contains(o)
                || exists|i: int|
                {
                    &&& from <= i < interfaces.len()
                    &&& read(#[trigger] interfaces[i]) == Value::Object(o)
                } by {
                if next.contains(o) && !stack.contains(o) {
                    assert(read(interfaces[from]) == Value::Object(o));
                }
            }
        }
    }
}

/// Some object of the stack leads to the class.
pub open spec fn stack_leads_to_class<T: ObjectCore>(
    stack: Seq<Object<T>>,
    constructor: Object<T>,
    prototype: Object<T>,
    state: T::Activation,
    read: spec_fn(Object<T>) -> Value<T>,
) -> bool {
    exists|i: int, length: nat|
        0 <= i < stack.len() && #[trigger] leads_to_class(
            stack[i],
            length,
            constructor,
            prototype,
            state,
            read,
        )
}

proof fn lemma_pure_instance_check<T: ObjectCore>(
    start: Object<T>,
    fuel: nat,
    stack: Seq<Object<T>>,
    constructor: Object<T>,
    prototype: Object<T>,
    before: T::Activation,
    after: T::Activation,
    result: Result<bool, Error<T::Failure>>,
    read: spec_fn(Object<T>) -> Value<T>,
)
    requires
        T::swf_version_in(before) >= INTERFACES_SWF_VERSION,
        interface_prototypes_are(start, before, read),
        forall|i: int| 0 <= i < stack.len() ==> is_reached(start, #[trigger] stack[i], before, read),
        instance_outcome(fuel, stack, constructor, prototype, before, after, result),
    ensures
        after == before,
        result == Ok::<_, Error<T::Failure>>(
            stack_leads_to_class(stack, constructor, prototype, before, read),
        ),
    decreases fuel,
{
    if stack.len() > 0 {
        let top = stack.last();
        let last = stack.len() - 1;
        assert(stack[last] == top);
        if top.repr.ptr() == prototype.repr.ptr() {
            assert(leads_to_class(stack[last], 0, constructor, prototype, before, read));
        } else {
            let rest = push_some(stack.drop_last(), top.repr.proto_in(before));
            let interfaces = top.repr.interfaces_in(before);
            let (mid, scan) = choose|mid: T::Activation, scan: InterfaceScan<T, T::Failure>|
                {
                    &&& #[trigger] scan_outcome(
                        interfaces,
                        0,
                        rest,
                        constructor,
                        before,
                        mid,
                        scan,
                    )
                    &&& match scan {
                        InterfaceScan::Implements => after == mid && result == Ok::<
                            _,
                            Error<T::Failure>,
                        >(true),
                        InterfaceScan::Failed(error) => after == mid && result == Err::<bool, _>(
                            error,
                        ),
                        InterfaceScan::Pending(stack) => instance_outcome(
                            (fuel - 1) as nat,
                            stack,
                            constructor,
                            prototype,
                            mid,
                            after,
                            result,
                        ),
                    }
                };
            lemma_pure_scan(interfaces, 0, rest, constructor, before, mid, scan, read);
            match scan {
                InterfaceScan::Implements => {
                    assert(implements(top, constructor, before));
                    assert(leads_to_class(stack[last], 0, constructor, prototype, before, read));
                },
                InterfaceScan::Failed(_) => {},
                InterfaceScan::Pending(pushed) => {
                    lemma_pending_is_reached(start, stack, rest, pushed, before, read);
                    lemma_pure_instance_check(
                        start,
                        (fuel - 1) as nat,
                        pushed,
                        constructor,
                        prototype,
                        before,
                        after,
                        result,
                        read,
                    );
                    lemma_pending_leads_alike(
                        stack,
                        rest,
                        pushed,
                        constructor,
                        prototype,
                        before,
                        read,
                    );
                },
            }
        }
    }
}

/// Replacing the top of the stack by what follows it leaves the stack with
/// objects that are reached.
proof fn lemma_pending_is_reached<T: ObjectCore>(
    start: Object<T>,
    stack: Seq<Object<T>>,
    rest: Seq<Object<T>>,
    pushed: Seq<Object<T>>,
    state: T::Activation,
    read: spec_fn(Object<T>) -> Value<T>,
)
    requires
        stack.len() > 0,
        forall|i: int| 0 <= i < stack.len() ==> is_reached(start, #[trigger] stack[i], state, read),
        rest == push_some(stack.drop_last(), stack.last().repr.proto_in(state)),
        forall|o: Object<T>| #[trigger]
            pushed.contains(o) ==> rest.contains(o) || exists|i: int|
                {
                    &&& 0 <= i < stack.last().repr.interfaces_in(state).len()
                    &&& read(#[trigger] stack.last().repr.interfaces_in(state)[i])
                        == Value::Object(o)
                },
    ensures
        forall|i: int| 0 <= i < pushed.len() ==> is_reached(start, #[trigger] pushed[i], state, read),
{
    let top = stack.last();
    let last = stack.len() - 1;
    assert(is_reached(start, stack[last], state, read));
    assert forall|at: int| 0 <= at < pushed.len() implies is_reached(
        start,
        #[trigger] pushed[at],
        state,
        read,
    ) by {
        let o = pushed[at];
        assert(pushed.contains(o));
        if rest.contains(o) {
            let i = choose|i: int| 0 <= i < rest.len() && rest[i] == o;
            if i < last {
                assert(stack[i] == o);
            } else {
                assert(is_next(top, o, state, read));
                lemma_next_is_reached(start, top, o, state, read);
            }
        } else {
            assert(is_next(top, o, state, read));
            lemma_next_is_reached(start, top, o, state, read);
        }
    }
}

/// Replacing the top of the stack by what follows it changes nothing about
/// whether the stack leads to the class.
proof fn lemma_pending_leads_alike<T: ObjectCore>(
    stack: Seq<Object<T>>,
    rest: Seq<Object<T>>,
    pushed: Seq<Object<T>>,
    constructor: Object<T>,
    prototype: Object<T>,
    state: T::Activation,
    read: spec_fn(Object<T>) -> Value<T>,
)
    requires
        stack.len() > 0,
        stack.last().repr.ptr() != prototype.repr.ptr(),
        rest == push_some(stack.drop_last(), stack.last().repr.proto_in(state)),
        !implements(stack.last(), constructor, state),
        forall|o: Object<T>| #[trigger]
            pushed.contains(o) ==> rest.contains(o) || exists|i: int|
                {
                    &&& 0 <= i < stack.last().repr.interfaces_in(state).len()
                    &&& read(#[trigger] stack.last().repr.interfaces_in(state)[i])
                        == Value::Object(o)
                },
        forall|o: Object<T>| #[trigger] rest.contains(o) ==> pushed.contains(o),
        forall|i: int|
            0 <= i < stack.last().repr.interfaces_in(state).len() ==> (read(
                #[trigger] stack.last().repr.interfaces_in(state)[i],
            ) matches Value::Object(o) ==> pushed.contains(o)),
    ensures
        stack_leads_to_class(stack, constructor, prototype, state, read) == stack_leads_to_class(
            pushed,
            constructor,
            prototype,
            state,
            read,
        ),
{
    let top = stack.last();
    let last = stack.len() - 1;
    assert(stack[last] == top);
    if stack_leads_to_class(stack, constructor, prototype, state, read) {
        let (i, length) = choose|i: int, length: nat|
            0 <= i < stack.len() && #[trigger] leads_to_class(
                stack[i],
                length,
                constructor,
                prototype,
                state,
                read,
            );
        if i < last {
            assert(rest[i] == stack[i]);
            assert(rest.contains(stack[i]));
            let at = choose|at: int| 0 <= at < pushed.len() && pushed[at] == stack[i];
            assert(leads_to_class(pushed[at], length, constructor, prototype, state, read));
        } else {
            let next = choose|next: Object<T>| #[trigger]
                is_next(top, next, state, read) && leads_to_class(
                    next,
                    (length - 1) as nat,
                    constructor,
                    prototype,
                    state,
                    read,
                );
            if top.repr.proto_in(state) == Some(next) {
                assert(rest[last] == next);
                assert(rest.contains(next));
            }
            assert(pushed.contains(next));
            let at = choose|at: int| 0 <= at < pushed.len() && pushed[at] == next;
            assert(leads_to_class(
                pushed[at],
                (length - 1) as nat,
                constructor,
                prototype,
                state,
                read,
            ));
        }
    }
    if stack_leads_to_class(pushed, constructor, prototype, state, read) {
        let (at, length) = choose|at: int, length: nat|
            0 <= at < pushed.len() && #[trigger] leads_to_class(
                pushed[at],
                length,
                constructor,
                prototype,
                state,
                read,
            );
        let o = pushed[at];
        assert(pushed.contains(o));
        if stack.drop_last().contains(o) {
            let i = choose|i: int| 0 <= i < stack.drop_last().len() && stack.drop_last()[i] == o;
            assert(leads_to_class(stack[i], length, constructor, prototype, state, read));
        } else {
            if rest.contains(o) {
                let i = choose|i: int| 0 <= i < rest.len() && rest[i] == o;
                if i < last {
                    assert(stack.drop_last()[i] == o);
                }
                assert(top.repr.proto_in(state) == Some(o));
            }
            assert(is_next(top, o, state, read));
            assert(leads_to_class(
                stack[last],
                length + 1,
                constructor,
                prototype,
                state,
                read,
            ));
        }
    }
}

/// Each interface is a new, parallel prototype chain, and all of them are
/// checked: where reading the prototypes of the interfaces that can be met has
/// no side effects, an object is an instance of a class exactly when its prototype leads, over
/// prototypes and the prototypes of interfaces, to the prototype of the class
/// or to an object that implements its constructor.
pub proof fn law_instance_with_interfaces<T: ObjectCore>(
    object: Object<T>,
    constructor: Object<T>,
    prototype: Object<T>,
    fuel: nat,
    before: T::Activation,
    after: T::Activation,
    result: Result<bool, Error<T::Failure>>,
    read: spec_fn(Object<T>) -> Value<T>,
)
    requires
        T::swf_version_in(before) >= 7,
        object.repr.proto_in(before) matches Some(proto) ==> interface_prototypes_are(
            proto,
            before,
            read,
        ),
        instance_outcome(
            fuel,
            push_some(Seq::empty(), object.repr.proto_in(before)),
            constructor,
            prototype,
            before,
            after,
            result,
        ),
    ensures
        after == before,
        result == Ok::<_, Error<T::Failure>>(
            object.repr.proto_in(before) matches Some(proto) && exists|length: nat| #[trigger]
                leads_to_class(proto, length, constructor, prototype, before, read),
        ),
{
    let stack = push_some(Seq::<Object<T>>::empty(), object.repr.proto_in(before));
    if let Some(proto) = object.repr.proto_in(before) {
        assert(reaches(proto, proto, 0, before, read));
        assert(stack[0] == proto);
        lemma_pure_instance_check(
            proto,
            fuel,
            stack,
            constructor,
            prototype,
            before,
            after,
            result,
            read,
        );
        if exists|length: nat| #[trigger]
            leads_to_class(proto, length, constructor, prototype, before, read) {
            let length = choose|length: nat| #[trigger]
                leads_to_class(proto, length, constructor, prototype, before, read);
            assert(leads_to_class(stack[0], length, constructor, prototype, before, read));
        }
    }
}

/// `rank` falls with every step, over prototypes and the prototypes of
/// interfaces, from an object that is reached from `start`.
pub open spec fn steps_are_ranked<T: ObjectCore>(
    start: Object<T>,
    state: T::Activation,
    read: spec_fn(Object<T>) -> Value<T>,
    rank: spec_fn(Object<T>) -> nat,
) -> bool {
    forall|object: Object<T>, next: Object<T>|
        is_reached(start, object, state, read) && #[trigger] is_next(object, next, state, read)
            ==> rank(next) < rank(object)
}

/// With `object` on top, any stack takes at most `extra` objects more.
spec fn takes_at_most<T: ObjectCore>(
    object: Object<T>,
    extra: nat,
    constructor: Object<T>,
    prototype: Object<T>,
    state: T::Activation,
) -> bool {
    forall|fuel: nat, stack: Seq<Object<T>>|
        #![trigger instance_check_ends(fuel, stack, constructor, prototype, state),
            stack.push(object)]
        instance_check_ends(fuel, stack, constructor, prototype, state) ==> instance_check_ends(
            fuel + extra,
            stack.push(object),
            constructor,
            prototype,
            state,
        )
}

/// With what a look at `interfaces[from..]` puts on top, any stack takes at most
/// `extra` objects more.
spec fn scan_takes_at_most<T: ObjectCore>(
    interfaces: Seq<Object<T>>,
    from: int,
    extra: nat,
    constructor: Object<T>,
    prototype: Object<T>,
    state: T::Activation,
) -> bool {
    forall|fuel: nat, stack: Seq<Object<T>>, mid: T::Activation, pushed: Seq<Object<T>>|
        #![trigger instance_check_ends(fuel, stack, constructor, prototype, state),
            scan_outcome(interfaces, from, stack, constructor, state, mid,
                InterfaceScan::Pending(pushed))]
        instance_check_ends(fuel, stack, constructor, prototype, state) && scan_outcome(
            interfaces,
            from,
            stack,
            constructor,
            state,
            mid,
            InterfaceScan::Pending(pushed),
        ) ==> mid == state && instance_check_ends(
            fuel + extra,
            pushed,
            constructor,
            prototype,
            state,
        )
}

proof fn lemma_object_takes_finitely_many<T: ObjectCore>(
    start: Object<T>,
    object: Object<T>,
    constructor: Object<T>,
    prototype: Object<T>,
    state: T::Activation,
    read: spec_fn(Object<T>) -> Value<T>,
    rank: spec_fn(Object<T>) -> nat,
) -> (extra: nat)
    requires
        interface_prototypes_are(start, state, read),
        steps_are_ranked(start, state, read, rank),
        is_reached(start, object, state, read),
    ensures
        takes_at_most(object, extra, constructor, prototype, state),
    decreases rank(object), object.repr.interfaces_in(state).len() + 1,
{
    let proto = object.repr.proto_in(state);
    let for_proto: nat = match proto {
        Some(next) => {
            assert(is_next(object, next, state, read));
            lemma_next_is_reached(start, object, next, state, read);
                lemma_object_takes_finitely_many(start, next, constructor, prototype, state, read, rank)
        },
        None => 0,
    };
    let interfaces = object.repr.interfaces_in(state);
    let has_interfaces = T::swf_version_in(state) >= INTERFACES_SWF_VERSION;
    let for_interfaces: nat = if has_interfaces {
        lemma_scan_takes_finitely_many(start, object, 0, constructor, prototype, state, read, rank)
    } else {
        0
    };
    let extra = for_proto + for_interfaces + 1;
    assert forall|fuel: nat, stack: Seq<Object<T>>|
        #![trigger instance_check_ends(fuel, stack, constructor, prototype, state),
            stack.push(object)]
        instance_check_ends(fuel, stack, constructor, prototype, state) implies instance_check_ends(
        fuel + extra,
        stack.push(object),
        constructor,
        prototype,
        state,
    ) by {
        let whole = stack.push(object);
        assert(whole.last() == object);
        assert(whole.drop_last() =~= stack);
        let rest = push_some(stack, proto);
        assert(instance_check_ends(fuel + for_proto, rest, constructor, prototype, state));
    }
    extra
}

proof fn lemma_scan_takes_finitely_many<T: ObjectCore>(
    start: Object<T>,
    object: Object<T>,
    from: int,
    constructor: Object<T>,
    prototype: Object<T>,
    state: T::Activation,
    read: spec_fn(Object<T>) -> Value<T>,
    rank: spec_fn(Object<T>) -> nat,
) -> (extra: nat)
    requires
        interface_prototypes_are(start, state, read),
        steps_are_ranked(start, state, read, rank),
        is_reached(start, object, state, read),
        0 <= from <= object.repr.interfaces_in(state).len(),
    ensures
        scan_takes_at_most(
            object.repr.interfaces_in(state),
            from,
            extra,
            constructor,
            prototype,
            state,
        ),
    decreases rank(object), object.repr.interfaces_in(state).len() - from,
{
    let interfaces = object.repr.interfaces_in(state);
    if from == interfaces.len() || interfaces[from].repr.ptr() == constructor.repr.ptr() {
        0
    } else {
        let behind = lemma_scan_takes_finitely_many(
            start,
            object,
            from + 1,
            constructor,
            prototype,
            state,
            read,
            rank,
        );
        let value = read(interfaces[from]);
        let here: nat = match value {
            Value::Object(next) => {
                assert(is_next(object, next, state, read));
                lemma_next_is_reached(start, object, next, state, read);
                lemma_object_takes_finitely_many(start, next, constructor, prototype, state, read, rank)
            },
            _ => 0,
        };
        let extra = here + behind;
        assert forall|fuel: nat, stack: Seq<Object<T>>, mid: T::Activation, pushed: Seq<Object<T>>|
            #![trigger instance_check_ends(fuel, stack, constructor, prototype, state),
                scan_outcome(interfaces, from, stack, constructor, state, mid,
                    InterfaceScan::Pending(pushed))]
            instance_check_ends(fuel, stack, constructor, prototype, state) && scan_outcome(
                interfaces,
                from,
                stack,
                constructor,
                state,
                mid,
                InterfaceScan::Pending(pushed),
            ) implies mid == state && instance_check_ends(
            fuel + extra,
            pushed,
            constructor,
            prototype,
            state,
        ) by {
            let next = push_object(stack, value);
            assert(prototypes_are(interfaces, state, read));
            assert(scan_outcome(
                interfaces,
                from + 1,
                next,
                constructor,
                state,
                mid,
                InterfaceScan::Pending(pushed),
            ));
            assert(instance_check_ends(fuel + here, next, constructor, prototype, state));
        }
        extra
    }
}

/// Where reading the prototypes of the interfaces that can be met has no side
/// effects and some rank falls with every step over prototypes and the
/// prototypes of interfaces, an instance check ends.
pub proof fn law_ranked_instance_check_ends<T: ObjectCore>(
    object: Object<T>,
    constructor: Object<T>,
    prototype: Object<T>,
    state: T::Activation,
    read: spec_fn(Object<T>) -> Value<T>,
    rank: spec_fn(Object<T>) -> nat,
)
    requires
        object.repr.proto_in(state) matches Some(proto) ==> {
            &&& interface_prototypes_are(proto, state, read)
            &&& steps_are_ranked(proto, state, read, rank)
        },
    ensures
        exists|fuel: nat| #[trigger]
            instance_check_ends(
                fuel,
                push_some(Seq::empty(), object.repr.proto_in(state)),
                constructor,
                prototype,
                state,
            ),
{
    let empty = Seq::<Object<T>>::empty();
    let stack = push_some(empty, object.repr.proto_in(state));
    assert(instance_check_ends(0, empty, constructor, prototype, state));
    if let Some(proto) = object.repr.proto_in(state) {
        assert(reaches(proto, proto, 0, state, read));
        let extra = lemma_object_takes_finitely_many(
            proto,
            proto,
            constructor,
            prototype,
            state,
            read,
            rank,
        );
        assert(stack == empty.push(proto));
        assert(instance_check_ends(0 + extra, stack, constructor, prototype, state));
    } else {
        assert(instance_check_ends(0, stack, constructor, prototype, state));
    }
}

/// A look at interfaces fails where reading the prototype of one of them does,
/// and none before it is the constructor.
proof fn lemma_failing_scan<T: ObjectCore>(
    interfaces: Seq<Object<T>>,
    from: int,
    at: int,
    stack: Seq<Object<T>>,
    constructor: Object<T>,
    before: T::Activation,
    after: T::Activation,
    scan: InterfaceScan<T, T::Failure>,
    read: spec_fn(Object<T>) -> Value<T>,
)
    requires
        0 <= from <= at < interfaces.len(),
        prototypes_are(interfaces.take(at), before, read),
        forall|i: int|
            0 <= i <= at ==> (#[trigger] interfaces[i]).repr.ptr() != constructor.repr.ptr(),
        forall|later: T::Activation, got: Result<Value<T>, Error<T::Failure>>| #[trigger]
            get_outcome(interfaces[at], "prototype"@, before, later, got) ==> got is Err,
        scan_outcome(interfaces, from, stack, constructor, before, after, scan),
    ensures
        scan matches InterfaceScan::Failed(error) && get_outcome(
            interfaces[at],
            "prototype"@,
            before,
            after,
            Err(error),
        ),
    decreases at - from,
{
    let (mid, got) = choose|mid: T::Activation, got: Result<Value<T>, Error<T::Failure>>|
        {
            &&& #[trigger] get_outcome(interfaces[from], "prototype"@, before, mid, got)
            &&& match got {
                Ok(value) => scan_outcome(
                    interfaces,
                    from + 1,
                    push_object(stack, value),
                    constructor,
                    mid,
                    after,
                    scan,
                ),
                Err(error) => {
                    &&& after == mid
                    &&& scan == InterfaceScan::<T, T::Failure>::Failed(error)
                },
            }
        };
    if from < at {
        let earlier = interfaces.take(at);
        assert(earlier[from] == interfaces[from]);
        assert(get_outcome(earlier[from], "prototype"@, before, mid, got));
        let value = read(interfaces[from]);
        lemma_failing_scan(
            interfaces,
            from + 1,
            at,
            push_object(stack, value),
            constructor,
            before,
            after,
            scan,
            read,
        );
    }
}

/// An instance check passes on what an interface throws: where the prototype of
/// the object is not that of the class, and reading the prototype of one of its
/// interfaces fails, before any of its interfaces was the constructor, the check
/// fails with that error.
pub proof fn law_failing_interface_fails_check<T: ObjectCore>(
    object: Object<T>,
    proto: Object<T>,
    at: int,
    constructor: Object<T>,
    prototype: Object<T>,
    fuel: nat,
    before: T::Activation,
    after: T::Activation,
    result: Result<bool, Error<T::Failure>>,
    read: spec_fn(Object<T>) -> Value<T>,
)
    requires
        T::swf_version_in(before) >= 7,
        object.repr.proto_in(before) == Some(proto),
        proto.repr.ptr() != prototype.repr.ptr(),
        0 <= at < proto.repr.interfaces_in(before).len(),
        prototypes_are(proto.repr.interfaces_in(before).take(at), before, read),
        forall|i: int|
            0 <= i <= at ==> (#[trigger] proto.repr.interfaces_in(before)[i]).repr.ptr()
                != constructor.repr.ptr(),
        forall|later: T::Activation, got: Result<Value<T>, Error<T::Failure>>| #[trigger]
            get_outcome(
                proto.repr.interfaces_in(before)[at],
                "prototype"@,
                before,
                later,
                got,
            ) ==> got is Err,
        instance_outcome(
            fuel,
            push_some(Seq::empty(), object.repr.proto_in(before)),
            constructor,
            prototype,
            before,
            after,
            result,
        ),
    ensures
        result matches Err(error) && get_outcome(
            proto.repr.interfaces_in(before)[at],
            "prototype"@,
            before,
            after,
            Err(error),
        ),
{
    let stack = push_some(Seq::<Object<T>>::empty(), object.repr.proto_in(before));
    let interfaces = proto.repr.interfaces_in(before);
    assert(stack.last() == proto);
    let rest = push_some(stack.drop_last(), proto.repr.proto_in(before));
    let (mid, scan) = choose|mid: T::Activation, scan: InterfaceScan<T, T::Failure>|
        {
            &&& #[trigger] scan_outcome(interfaces, 0, rest, constructor, before, mid, scan)
            &&& match scan {
                InterfaceScan::Implements => after == mid && result == Ok::<
                    _,
                    Error<T::Failure>,
                >(true),
                InterfaceScan::Failed(error) => after == mid && result == Err::<bool, _>(error),
                InterfaceScan::Pending(stack) => instance_outcome(
                    (fuel - 1) as nat,
                    stack,
                    constructor,
                    prototype,
                    mid,
                    after,
                    result,
                ),
            }
        };
    lemma_failing_scan(interfaces, 0, at, rest, constructor, before, mid, scan, read);
}

/// The objects among the values that `read` gives for `interfaces`, in order.
pub open spec fn objects_read<T: ObjectCore>(
    interfaces: Seq<Object<T>>,
    read: spec_fn(Object<T>) -> Value<T>,
) -> Seq<Object<T>>
    decreases interfaces.len(),
{
    if interfaces.len() == 0 {
        Seq::empty()
    } else {
        let behind = objects_read(interfaces.drop_first(), read);
        match read(interfaces[0]) {
            Value::Object(object) => seq![object] + behind,
            _ => behind,
        }
    }
}

/// Where no interface is the constructor and reading has no side effects, a look
/// at interfaces leaves their prototypes on the stack, in order.
proof fn lemma_scan_pushes_in_order<T: ObjectCore>(
    interfaces: Seq<Object<T>>,
    from: int,
    stack: Seq<Object<T>>,
    constructor: Object<T>,
    before: T::Activation,
    after: T::Activation,
    scan: InterfaceScan<T, T::Failure>,
    read: spec_fn(Object<T>) -> Value<T>,
)
    requires
        0 <= from <= interfaces.len(),
        prototypes_are(interfaces, before, read),
        forall|i: int|
            0 <= i < interfaces.len() ==> (#[trigger] interfaces[i]).repr.ptr()
                != constructor.repr.ptr(),
        scan_outcome(interfaces, from, stack, constructor, before, after, scan),
    ensures
        after == before,
        scan == InterfaceScan::<T, T::Failure>::Pending(
            stack + objects_read(interfaces.skip(from), read),
        ),
    decreases interfaces.len() - from,
{
    let rest = interfaces.skip(from);
    if from == interfaces.len() {
        assert(stack + objects_read(rest, read) =~= stack);
    } else {
        assert(interfaces[from].repr.ptr() != constructor.repr.ptr());
        let (mid, got) = choose|mid: T::Activation, got: Result<Value<T>, Error<T::Failure>>|
            {
                &&& #[trigger] get_outcome(interfaces[from], "prototype"@, before, mid, got)
                &&& match got {
                    Ok(value) => scan_outcome(
                        interfaces,
                        from + 1,
                        push_object(stack, value),
                        constructor,
                        mid,
                        after,
                        scan,
                    ),
                    Err(error) => {
                        &&& after == mid
                        &&& scan == InterfaceScan::<T, T::Failure>::Failed(error)
                    },
                }
            };
        let value = read(interfaces[from]);
        assert(got == Ok::<_, Error<T::Failure>>(value));
        let next = push_object(stack, value);
        lemma_scan_pushes_in_order(
            interfaces,
            from + 1,
            next,
            constructor,
            before,
            after,
            scan,
            read,
        );
        assert(rest.drop_first() =~= interfaces.skip(from + 1));
        assert(rest[0] == interfaces[from]);
        assert(next + objects_read(interfaces.skip(from + 1), read) =~= stack + objects_read(
            rest,
            read,
        ));
    }
}

/// The order of an instance check: an object that is neither the prototype of the
/// class nor implements its constructor gives its place to its own prototype and,
/// on top of that, to the prototypes of its interfaces, of which the last is looked
/// at first. Before interfaces, it gives its place to its own prototype alone.
pub proof fn law_instance_check_order<T: ObjectCore>(
    fuel: nat,
    below: Seq<Object<T>>,
    top: Object<T>,
    constructor: Object<T>,
    prototype: Object<T>,
    before: T::Activation,
    after: T::Activation,
    result: Result<bool, Error<T::Failure>>,
    read: spec_fn(Object<T>) -> Value<T>,
)
    requires
        top.repr.ptr() != prototype.repr.ptr(),
        prototypes_are(top.repr.interfaces_in(before), before, read),
        !implements(top, constructor, before),
        instance_outcome(
            fuel,
            below.push(top),
            constructor,
            prototype,
            before,
            after,
            result,
        ),
    ensures
        fuel > 0,
        instance_outcome(
            (fuel - 1) as nat,
            below + (match top.repr.proto_in(before) {
                Some(proto) => seq![proto],
                None => Seq::empty(),
            }) + if T::swf_version_in(before) >= 7 {
                objects_read(top.repr.interfaces_in(before), read)
            } else {
                Seq::empty()
            },
            constructor,
            prototype,
            before,
            after,
            result,
        ),
{
    let stack = below.push(top);
    assert(stack.last() == top);
    assert(stack.drop_last() =~= below);
    let own = match top.repr.proto_in(before) {
        Some(proto) => seq![proto],
        None => Seq::empty(),
    };
    let rest = push_some(below, top.repr.proto_in(before));
    assert(rest =~= below + own);
    let interfaces = top.repr.interfaces_in(before);
    if T::swf_version_in(before) >= 7 {
        let (mid, scan) = choose|mid: T::Activation, scan: InterfaceScan<T, T::Failure>|
            {
                &&& #[trigger] scan_outcome(interfaces, 0, rest, constructor, before, mid, scan)
                &&& match scan {
                    InterfaceScan::Implements => after == mid && result == Ok::<
                        _,
                        Error<T::Failure>,
                    >(true),
                    InterfaceScan::Failed(error) => after == mid && result == Err::<bool, _>(
                        error,
                    ),
                    InterfaceScan::Pending(stack) => instance_outcome(
                        (fuel - 1) as nat,
                        stack,
                        constructor,
                        prototype,
                        mid,
                        after,
                        result,
                    ),
                }
            };
        lemma_scan_pushes_in_order(
            interfaces,
            0,
            rest,
            constructor,
            before,
            mid,
            scan,
            read,
        );
        assert(interfaces.skip(0) =~= interfaces);
    } else {
        assert(below + own + Seq::<Object<T>>::empty() =~= rest);
    }
}

} // verus!

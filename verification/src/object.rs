//! The objects of the ActionScript 1/2 virtual machine: what a runtime has to
//! provide for its objects, and the look-ups that are the same for all of them.
//!
//! Scripts change objects behind the handles that refer to them, so the state
//! of all objects is part of the [`ObjectCore::Activation`] that every operation
//! takes. An operation that takes the activation by shared reference reads that
//! state; one that takes it by mutable reference may run script code, which may
//! do anything. The contracts therefore speak of the second kind through
//! relations between the state before, the state after and the result. Each
//! runtime chooses those relations; nothing is asked of them here.
//!
//! A runtime that is itself verified defines [`ObjectCore::ptr`],
//! [`ObjectCore::proto_in`], [`ObjectCore::interfaces_in`] and
//! [`ObjectCore::swf_version_in`]: the provided ones are one fixed value for all
//! objects and states, and only stand in for a runtime that is not. The provided
//! relations allow every outcome, but for [`ObjectCore::own_get_outcome`], which
//! allows none: it belongs to objects that keep the provided [`TObject::get`].
use vstd::prelude::*;

verus! {

/// The identity of an object: two handles refer to one object exactly when
/// their `ObjectPtr`s are equal.
#[derive(Clone, Copy, PartialEq, Eq, Structural, Debug)]
pub enum ObjectPtr {
    Address(usize),
}

/// An object that can be directly interacted with by the virtual machine, in
/// the representation `T` of the runtime.
#[derive(Debug)]
pub struct Object<T> {
    pub repr: T,
}

impl<T: Copy> Clone for Object<T> {
    fn clone(&self) -> (copy: Self)
        ensures
            copy == *self,
    {
        *self
    }
}

impl<T: Copy> Copy for Object<T> {

}

/// A script value. A number is given by the bits of its binary64 encoding.
#[derive(Debug)]
pub enum Value<T> {
    Undefined,
    Null,
    Bool(bool),
    Number(u64),
    String(String),
    Object(Object<T>),
}

impl<T> Value<T> {
    /// Whether the value can be called: only objects can. A method that cannot
    /// is worth a warning.
    pub fn is_callable(&self) -> (callable: bool)
        ensures
            callable == (*self is Object),
    {
        match self {
            Value::Object(_) => true,
            _ => false,
        }
    }
}

/// Why a script operation stopped: a prototype chain that is too long, or a
/// reason `F` of the runtime, such as an exception that a script threw.
#[derive(Debug)]
pub enum Error<F> {
    PrototypeRecursionLimit,
    Runtime(F),
}

/// The most objects that a look-up visits on a prototype chain.
pub const MAX_PROTOTYPE_DEPTH: u8 = 255;

/// The first SWF version in which classes implement interfaces.
pub const INTERFACES_SWF_VERSION: u8 = 7;

/// What the look-ups need of the objects of a runtime.
pub trait ObjectCore: Sized + Copy {
    /// The running script together with the state of all objects.
    type Activation;

    /// What else than a prototype chain that is too long stops a script.
    type Failure;

    /// The identity that `as_ptr` returns.
    open spec fn ptr(self) -> ObjectPtr {
        arbitrary()
    }

    /// The `__proto__` in a state.
    open spec fn proto_in(self, state: Self::Activation) -> Option<Object<Self>> {
        arbitrary()
    }

    /// The interfaces in a state.
    open spec fn interfaces_in(self, state: Self::Activation) -> Seq<Object<Self>> {
        arbitrary()
    }

    /// The SWF version of the code that runs in a state.
    open spec fn swf_version_in(state: Self::Activation) -> u8 {
        arbitrary()
    }

    /// `has_own_property` may lead from `before` to `after` and answer `found`.
    open spec fn has_own_property_outcome(
        self,
        name: Seq<char>,
        before: Self::Activation,
        after: Self::Activation,
        found: bool,
    ) -> bool {
        true
    }

    /// `get_local` may lead from `before` to `after` and return `result`.
    open spec fn get_local_outcome(
        self,
        name: Seq<char>,
        this: Object<Self>,
        before: Self::Activation,
        after: Self::Activation,
        result: Result<Value<Self>, Error<Self::Failure>>,
    ) -> bool {
        true
    }

    /// A `get` of the object's own, in place of the provided one, may lead from
    /// `before` to `after` and return `result`.
    open spec fn own_get_outcome(
        self,
        name: Seq<char>,
        before: Self::Activation,
        after: Self::Activation,
        result: Result<Value<Self>, Error<Self::Failure>>,
    ) -> bool {
        false
    }

    /// `call_value` may lead from `before` to `after` and return `result`.
    open spec fn call_value_outcome(
        method: Value<Self>,
        name: Seq<char>,
        this: Object<Self>,
        base_proto: Option<Object<Self>>,
        args: Seq<Value<Self>>,
        before: Self::Activation,
        after: Self::Activation,
        result: Result<Value<Self>, Error<Self::Failure>>,
    ) -> bool {
        true
    }

    /// `undefined_to_object` may lead from `before` to `after` and return
    /// `object`.
    open spec fn undefined_to_object_outcome(
        before: Self::Activation,
        after: Self::Activation,
        object: Object<Self>,
    ) -> bool {
        true
    }

    /// The identity of the object.
    fn as_ptr(&self) -> (ptr: ObjectPtr)
        ensures
            ptr == self.ptr(),
    ;

    /// Retrieve the `__proto__` of a given object.
    ///
    /// The proto is another object used to resolve methods across a class of
    /// multiple objects.
    fn proto(&self, activation: &Self::Activation) -> (proto: Option<Object<Self>>)
        ensures
            proto == self.proto_in(*activation),
    ;

    /// Enumerate all interfaces implemented by this object.
    fn interfaces(&self, activation: &Self::Activation) -> (interfaces: Vec<Object<Self>>)
        ensures
            interfaces@ == self.interfaces_in(*activation),
    ;

    /// The SWF version of the code that runs.
    fn current_swf_version(activation: &Self::Activation) -> (version: u8)
        ensures
            version == Self::swf_version_in(*activation),
    ;

    /// Checks if the object has a given named property on itself (and not,
    /// say, the object's prototype or superclass).
    fn has_own_property(&self, activation: &mut Self::Activation, name: &str) -> (found: bool)
        ensures
            self.has_own_property_outcome(name@, *old(activation), *final(activation), found),
    ;

    /// Retrieve a named property from this object exclusively.
    ///
    /// The property may be computed by script code, which is handed `this`.
    fn get_local(
        &self,
        name: &str,
        activation: &mut Self::Activation,
        this: Object<Self>,
    ) -> (result: Result<Value<Self>, Error<Self::Failure>>)
        ensures
            self.get_local_outcome(name@, this, *old(activation), *final(activation), result),
    ;

    /// Call a value, as the method `name` of `this`.
    ///
    /// `base_proto` is the object that the method was found on; `super` goes on
    /// from there. What comes of a call of a value that is no function is for
    /// the runtime to say.
    fn call_value(
        method: Value<Self>,
        name: &str,
        activation: &mut Self::Activation,
        this: Object<Self>,
        base_proto: Option<Object<Self>>,
        args: &[Value<Self>],
    ) -> (result: Result<Value<Self>, Error<Self::Failure>>)
        ensures
            Self::call_value_outcome(
                method,
                name@,
                this,
                base_proto,
                args@,
                *old(activation),
                *final(activation),
                result,
            ),
    ;

    /// The object that `undefined` is coerced to.
    fn undefined_to_object(activation: &mut Self::Activation) -> (object: Object<Self>)
        ensures
            Self::undefined_to_object_outcome(*old(activation), *final(activation), object),
    ;
}

/// A property that was found on a prototype chain, with the object it was found
/// on.
pub type Found<T> = (Value<T>, Option<Object<T>>);

/// The result of reading a property off `holder`, as the result of a search
/// that stopped there.
pub open spec fn found_on<T, F>(
    local: Result<Value<T>, Error<F>>,
    holder: Object<T>,
) -> Result<(Value<T>, Option<Object<T>>), Error<F>> {
    match local {
        Ok(value) => Ok((value, Some(holder))),
        Err(error) => Err(error),
    }
}

/// The value of a search, without the object it was found on.
pub open spec fn found_value<T, F>(
    found: Result<(Value<T>, Option<Object<T>>), Error<F>>,
) -> Result<Value<T>, Error<F>> {
    match found {
        Ok((value, _)) => Ok(value),
        Err(error) => Err(error),
    }
}

/// A search for `name` on the chain that starts at `proto`, with `depth` objects
/// already visited, may lead from `before` to `after` and return `result`.
///
/// - Past the end of the chain the value is `undefined`, and no object holds it.
/// - With `MAX_PROTOTYPE_DEPTH` objects visited, a further one is an error.
/// - An object that has the property ends the search with what the property
///   reads as, and is the object it was found on.
/// - Otherwise the search goes on with the prototype that the object then has.
pub open spec fn search_outcome<T: ObjectCore>(
    proto: Option<Object<T>>,
    depth: int,
    name: Seq<char>,
    this: Object<T>,
    before: T::Activation,
    after: T::Activation,
    result: Result<(Value<T>, Option<Object<T>>), Error<T::Failure>>,
) -> bool
    decreases MAX_PROTOTYPE_DEPTH - depth,
{
    match proto {
        None => {
            &&& after == before
            &&& result == Ok::<_, Error<T::Failure>>((Value::<T>::Undefined, None::<Object<T>>))
        },
        Some(object) => if depth >= MAX_PROTOTYPE_DEPTH {
            &&& after == before
            &&& result == Err::<(Value<T>, Option<Object<T>>), _>(
                Error::<T::Failure>::PrototypeRecursionLimit,
            )
        } else {
            ||| exists|mid: T::Activation, local: Result<Value<T>, Error<T::Failure>>|
                {
                    &&& #[trigger] object.repr.has_own_property_outcome(name, before, mid, true)
                    &&& #[trigger] object.repr.get_local_outcome(name, this, mid, after, local)
                    &&& result == found_on(local, object)
                }
            ||| exists|mid: T::Activation|
                {
                    &&& #[trigger] object.repr.has_own_property_outcome(name, before, mid, false)
                    &&& search_outcome(
                        object.repr.proto_in(mid),
                        depth + 1,
                        name,
                        this,
                        mid,
                        after,
                        result,
                    )
                }
        },
    }
}

/// Reading `name` off `object` in the usual way may lead from `before` to
/// `after` and return `result`: the object's own property where it has one, else
/// what a search from its prototype finds.
pub open spec fn usual_get_outcome<T: ObjectCore>(
    object: Object<T>,
    name: Seq<char>,
    before: T::Activation,
    after: T::Activation,
    result: Result<Value<T>, Error<T::Failure>>,
) -> bool {
    ||| exists|mid: T::Activation|
        {
            &&& #[trigger] object.repr.has_own_property_outcome(name, before, mid, true)
            &&& object.repr.get_local_outcome(name, object, mid, after, result)
        }
    ||| exists|
        mid: T::Activation,
        found: Result<(Value<T>, Option<Object<T>>), Error<T::Failure>>,
    |
        {
            &&& #[trigger] object.repr.has_own_property_outcome(name, before, mid, false)
            &&& #[trigger] search_outcome(
                object.repr.proto_in(mid),
                0,
                name,
                object,
                mid,
                after,
                found,
            )
            &&& result == found_value(found)
        }
}

/// Reading `name` off `object` may lead from `before` to `after` and return
/// `result`: in the usual way, or in the object's own.
pub open spec fn get_outcome<T: ObjectCore>(
    object: Object<T>,
    name: Seq<char>,
    before: T::Activation,
    after: T::Activation,
    result: Result<Value<T>, Error<T::Failure>>,
) -> bool {
    ||| object.repr.own_get_outcome(name, before, after, result)
    ||| usual_get_outcome(object, name, before, after, result)
}

/// Calling the method `name` of `object` may lead from `before` to `after` and
/// return `result`: what calling the value that a search from the object itself
/// finds comes to, with the object as `this` and the object that the value was
/// found on as the base of `super`.
pub open spec fn call_method_outcome<T: ObjectCore>(
    object: Object<T>,
    name: Seq<char>,
    args: Seq<Value<T>>,
    before: T::Activation,
    after: T::Activation,
    result: Result<Value<T>, Error<T::Failure>>,
) -> bool {
    exists|
        mid: T::Activation,
        found: Result<(Value<T>, Option<Object<T>>), Error<T::Failure>>,
    |
        {
            &&& #[trigger] search_outcome(Some(object), 0, name, object, before, mid, found)
            &&& match found {
                Ok((method, base_proto)) => T::call_value_outcome(
                    method,
                    name,
                    object,
                    base_proto,
                    args,
                    mid,
                    after,
                    result,
                ),
                Err(error) => after == mid && result == Err::<Value<T>, _>(error),
            }
        }
}

/// The object `steps` prototypes up from `object`.
pub open spec fn nth_proto<T: ObjectCore>(
    object: Object<T>,
    state: T::Activation,
    steps: nat,
) -> Option<Object<T>>
    decreases steps,
{
    if steps == 0 {
        Some(object)
    } else {
        match nth_proto(object, state, (steps - 1) as nat) {
            Some(object) => object.repr.proto_in(state),
            None => None,
        }
    }
}

/// The object `steps` prototypes up from `object` is the one with identity
/// `ptr`.
pub open spec fn is_nth_proto<T: ObjectCore>(
    ptr: ObjectPtr,
    object: Object<T>,
    state: T::Activation,
    steps: nat,
) -> bool {
    nth_proto(object, state, steps) matches Some(proto) && proto.repr.ptr() == ptr
}

/// The object with identity `ptr` is on the prototype chain of `object`.
pub open spec fn in_proto_chain<T: ObjectCore>(
    ptr: ObjectPtr,
    object: Object<T>,
    state: T::Activation,
) -> bool {
    exists|steps: nat| steps > 0 && #[trigger] is_nth_proto(ptr, object, state, steps)
}

/// The prototype chain of `object` ends, or has an object with identity `ptr`.
/// A chain that runs in a circle without it goes on for ever.
pub open spec fn proto_chain_ends<T: ObjectCore>(
    ptr: ObjectPtr,
    object: Object<T>,
    state: T::Activation,
) -> bool {
    ||| in_proto_chain(ptr, object, state)
    ||| exists|steps: nat| #[trigger] nth_proto(object, state, steps) is None
}

/// What a look at the interfaces of an object comes to.
pub enum InterfaceScan<T, F> {
    /// One of them is the constructor that was asked for.
    Implements,
    /// None of them is; their prototypes are on the stack.
    Pending(Seq<Object<T>>),
    /// Reading the prototype of one of them failed.
    Failed(Error<F>),
}

/// The stack with the object that a value holds, if it holds one.
pub open spec fn push_object<T>(stack: Seq<Object<T>>, value: Value<T>) -> Seq<Object<T>> {
    match value {
        Value::Object(object) => stack.push(object),
        _ => stack,
    }
}

/// The stack with an object, if there is one.
pub open spec fn push_some<T>(stack: Seq<Object<T>>, object: Option<Object<T>>) -> Seq<Object<T>> {
    match object {
        Some(object) => stack.push(object),
        None => stack,
    }
}

/// A look at `interfaces[from..]` may lead from `before` to `after` and come to
/// `scan`: each interface in turn is the constructor, or has its `prototype`
/// read and put on the stack.
pub open spec fn scan_outcome<T: ObjectCore>(
    interfaces: Seq<Object<T>>,
    from: int,
    stack: Seq<Object<T>>,
    constructor: Object<T>,
    before: T::Activation,
    after: T::Activation,
    scan: InterfaceScan<T, T::Failure>,
) -> bool
    decreases interfaces.len() - from,
{
    if from >= interfaces.len() {
        &&& after == before
        &&& scan == InterfaceScan::<T, T::Failure>::Pending(stack)
    } else if interfaces[from].repr.ptr() == constructor.repr.ptr() {
        &&& after == before
        &&& scan == InterfaceScan::<T, T::Failure>::Implements
    } else {
        exists|mid: T::Activation, got: Result<Value<T>, Error<T::Failure>>|
            {
                &&& #[trigger] get_outcome(interfaces[from], "prototype"@, before, mid, got)
                &&& match got {
                    Ok(value) => scan_outcome(
                        interfaces,
                        from + 1,
                        push_object(stack, value),
                        constructor,
                        mid,
                        after,
                        scan,
                    ),
                    Err(error) => {
                        &&& after == mid
                        &&& scan == InterfaceScan::<T, T::Failure>::Failed(error)
                    },
                }
            }
    }
}

/// An instance check with `stack` still to be looked at may lead from `before`
/// to `after` and return `result`, with at most `fuel` objects taken off the
/// stack.
///
/// The object on top of the stack is the prototype that was asked for, or its
/// own prototype and, where the SWF version has interfaces, those of its
/// interfaces take its place.
pub open spec fn instance_outcome<T: ObjectCore>(
    fuel: nat,
    stack: Seq<Object<T>>,
    constructor: Object<T>,
    prototype: Object<T>,
    before: T::Activation,
    after: T::Activation,
    result: Result<bool, Error<T::Failure>>,
) -> bool
    decreases fuel,
{
    if stack.len() == 0 {
        after == before && result == Ok::<_, Error<T::Failure>>(false)
    } else if fuel == 0 {
        false
    } else if stack.last().repr.ptr() == prototype.repr.ptr() {
        after == before && result == Ok::<_, Error<T::Failure>>(true)
    } else {
        let top = stack.last();
        let rest = push_some(stack.drop_last(), top.repr.proto_in(before));
        if T::swf_version_in(before) >= INTERFACES_SWF_VERSION {
            exists|mid: T::Activation, scan: InterfaceScan<T, T::Failure>|
                {
                    &&& #[trigger] scan_outcome(
                        top.repr.interfaces_in(before),
                        0,
                        rest,
                        constructor,
                        before,
                        mid,
                        scan,
                    )
                    &&& match scan {
                        InterfaceScan::Implements => after == mid && result == Ok::<
                            _,
                            Error<T::Failure>,
                        >(true),
                        InterfaceScan::Failed(error) => after == mid && result == Err::<bool, _>(
                            error,
                        ),
                        InterfaceScan::Pending(stack) => instance_outcome(
                            (fuel - 1) as nat,
                            stack,
                            constructor,
                            prototype,
                            mid,
                            after,
                            result,
                        ),
                    }
                }
        } else {
            instance_outcome(
                (fuel - 1) as nat,
                rest,
                constructor,
                prototype,
                before,
                after,
                result,
            )
        }
    }
}

/// However the script code that it runs behaves, an instance check with `stack`
/// still to be looked at is over once `fuel` objects are taken off the stack.
pub open spec fn instance_check_ends<T: ObjectCore>(
    fuel: nat,
    stack: Seq<Object<T>>,
    constructor: Object<T>,
    prototype: Object<T>,
    before: T::Activation,
) -> bool
    decreases fuel,
{
    if stack.len() == 0 {
        true
    } else if fuel == 0 {
        false
    } else if stack.last().repr.ptr() == prototype.repr.ptr() {
        true
    } else {
        let top = stack.last();
        let rest = push_some(stack.drop_last(), top.repr.proto_in(before));
        if T::swf_version_in(before) >= INTERFACES_SWF_VERSION {
            forall|mid: T::Activation, stack: Seq<Object<T>>| #[trigger]
                scan_outcome(
                    top.repr.interfaces_in(before),
                    0,
                    rest,
                    constructor,
                    before,
                    mid,
                    InterfaceScan::Pending(stack),
                ) ==> instance_check_ends((fuel - 1) as nat, stack, constructor, prototype, mid)
        } else {
            instance_check_ends((fuel - 1) as nat, rest, constructor, prototype, before)
        }
    }
}

/// Perform a prototype lookup of a given object.
///
/// This function returns both the value and the prototype that generated the
/// value. If the property did not resolve, then it returns `undefined` and
/// `None` for the prototype.
///
/// The second return value can and should be used to populate the `base_proto`
/// property necessary to make `super` work.
pub fn search_prototype<T: ObjectCore>(
    proto: Option<Object<T>>,
    name: &str,
    activation: &mut T::Activation,
    this: Object<T>,
) -> (result: Result<Found<T>, Error<T::Failure>>)
    ensures
        search_outcome(proto, 0, name@, this, *old(activation), *final(activation), result),
{
    let mut current: Option<Object<T>> = proto;
    let mut depth: u8 = 0;

    loop
        invariant
            depth <= MAX_PROTOTYPE_DEPTH,
            forall|after: T::Activation, result|
                #[trigger] search_outcome(
                    current,
                    depth as int,
                    name@,
                    this,
                    *activation,
                    after,
                    result,
                ) ==> search_outcome(proto, 0, name@, this, *old(activation), after, result),
        decreases MAX_PROTOTYPE_DEPTH - depth,
    {
        let ghost before = *activation;
        let object: Object<T> = match current {
            Some(object) => object,
            None => {
                let result = Ok((Value::Undefined, None));
                assert(search_outcome(
                    current,
                    depth as int,
                    name@,
                    this,
                    before,
                    *activation,
                    result,
                ));
                return result;
            },
        };

        if depth == MAX_PROTOTYPE_DEPTH {
            let result = Err(Error::PrototypeRecursionLimit);
            assert(search_outcome(
                current,
                depth as int,
                name@,
                this,
                before,
                *activation,
                result,
            ));
            return result;
        }
        if object.repr.has_own_property(activation, name) {
            let result = match object.repr.get_local(name, activation, this) {
                Ok(value) => Ok((value, current)),
                Err(error) => Err(error),
            };
            assert(search_outcome(
                current,
                depth as int,
                name@,
                this,
                before,
                *activation,
                result,
            ));
            return result;
        }
        proof {
            let mid = *activation;
            assert forall|after: T::Activation, result| #[trigger]
                search_outcome(
                    object.repr.proto_in(mid),
                    depth + 1,
                    name@,
                    this,
                    mid,
                    after,
                    result,
                ) implies search_outcome(
                current,
                depth as int,
                name@,
                this,
                before,
                after,
                result,
            ) by {
                assert(object.repr.has_own_property_outcome(name@, before, mid, false));
            }
        }
        current = object.repr.proto(&*activation);
        depth += 1;
    }
}

impl<T: ObjectCore> Object<T> {
    /// Whether two handles refer to one object.
    pub fn ptr_eq(a: Object<T>, b: Object<T>) -> (same: bool)
        ensures
            same == (a.repr.ptr() == b.repr.ptr()),
    {
        a.repr.as_ptr() == b.repr.as_ptr()
    }
}

/// The objects of a runtime. Every method here is provided, and an object may
/// have its own in its place.
pub trait TObject: ObjectCore {
    type SoundObject;

    type StageObject;

    type SuperObject;

    type DisplayObject;

    type Executable;

    type XMLNode;

    type ValueObject;

    type SharedObject;

    type DateObject;

    type ColorTransformObject;

    type TransformObject;

    type BlurFilterObject;

    type BevelFilterObject;

    /// Retrieve a named property from the object, or its prototype.
    fn get(&self, name: &str, activation: &mut Self::Activation) -> (result: Result<
        Value<Self>,
        Error<Self::Failure>,
    >)
        ensures
            get_outcome(
                Object { repr: *self },
                name@,
                *old(activation),
                *final(activation),
                result,
            ),
        default_ensures
            usual_get_outcome(
                Object { repr: *self },
                name@,
                *old(activation),
                *final(activation),
                result,
            ),
    {
        let object: Object<Self> = Object { repr: *self };
        if self.has_own_property(activation, name) {
            self.get_local(name, activation, object)
        } else {
            let proto = self.proto(&*activation);
            match search_prototype(proto, name, activation, object) {
                Ok((value, _)) => Ok(value),
                Err(error) => Err(error),
            }
        }
    }

    /// Call a method on the object.
    ///
    /// It is highly recommended to use this convenience method to perform
    /// method calls. It will take care of retrieving the method, calculating
    /// its base prototype for `super` calls, and providing it with the correct
    /// `this` parameter.
    fn call_method(
        &self,
        name: &str,
        args: &[Value<Self>],
        activation: &mut Self::Activation,
    ) -> (result: Result<Value<Self>, Error<Self::Failure>>)
        default_ensures
            call_method_outcome(
                Object { repr: *self },
                name@,
                args@,
                *old(activation),
                *final(activation),
                result,
            ),
    {
        let object: Object<Self> = Object { repr: *self };
        match search_prototype(Some(object), name, activation, object) {
            Ok((method, base_proto)) => Self::call_value(
                method,
                name,
                activation,
                object,
                base_proto,
                args,
            ),
            Err(error) => Err(error),
        }
    }

    /// Check if this object is in the prototype chain of the specified test
    /// object.
    fn is_prototype_of(&self, other: Object<Self>, activation: &Self::Activation) -> (found: bool)
        requires
            proto_chain_ends(self.ptr(), other, *activation),
        default_ensures
            found == in_proto_chain(self.ptr(), other, *activation),
    {
        let ghost ptr = self.ptr();
        let ghost state = *activation;
        let ghost end: nat = if in_proto_chain(ptr, other, state) {
            choose|steps: nat| steps > 0 && #[trigger] is_nth_proto(ptr, other, state, steps)
        } else {
            choose|steps: nat| #[trigger] nth_proto(other, state, steps) is None
        };
        let ghost mut steps: nat = 1;
        assert(nth_proto(other, state, 0) == Some(other));
        let mut proto: Option<Object<Self>> = other.repr.proto(activation);

        loop
            invariant
                ptr == self.ptr(),
                state == *activation,
                0 < steps,
                proto == nth_proto(other, state, steps),
                forall|earlier: nat|
                    0 < earlier < steps ==> !#[trigger] is_nth_proto(ptr, other, state, earlier),
                is_nth_proto(ptr, other, state, end) && end > 0 || nth_proto(other, state, end) is None,
            decreases end + 1 - steps,
        {
            let proto_ob: Object<Self> = match proto {
                Some(proto_ob) => proto_ob,
                None => {
                    proof {
                        assert forall|later: nat| 0 < later implies !#[trigger] is_nth_proto(
                            ptr,
                            other,
                            state,
                            later,
                        ) by {
                            if later >= steps {
                                lemma_chain_stays_ended(other, state, steps, later);
                            }
                        }
                    }
                    return false;
                },
            };
            if self.as_ptr() == proto_ob.repr.as_ptr() {
                assert(is_nth_proto(ptr, other, state, steps));
                return true;
            }
            proof {
                if steps >= end {
                    if nth_proto(other, state, end) is None {
                        lemma_chain_stays_ended(other, state, end, steps);
                    }
                }
                steps = steps + 1;
            }
            proto = proto_ob.repr.proto(activation);
        }
    }

    /// Determine if this object is an instance of a class.
    ///
    /// The class is provided in the form of its constructor function and the
    /// explicit prototype of that constructor function. It is assumed that
    /// they are already linked.
    ///
    /// Because ActionScript 2.0 added interfaces, this function cannot simply
    /// check the prototype chain and call it a day. Each interface represents
    /// a new, parallel prototype chain which also needs to be checked. You
    /// can't implement interfaces within interfaces (fortunately), but if you
    /// somehow could this would support that, too.
    fn is_instance_of(
        &self,
        activation: &mut Self::Activation,
        constructor: Object<Self>,
        prototype: Object<Self>,
    ) -> (result: Result<bool, Error<Self::Failure>>)
        requires
            exists|fuel: nat| #[trigger]
                instance_check_ends(
                    fuel,
                    push_some(Seq::empty(), self.proto_in(*old(activation))),
                    constructor,
                    prototype,
                    *old(activation),
                ),
        default_ensures
            exists|fuel: nat| #[trigger]
                instance_outcome(
                    fuel,
                    push_some(Seq::empty(), self.proto_in(*old(activation))),
                    constructor,
                    prototype,
                    *old(activation),
                    *final(activation),
                    result,
                ),
    {
        let ghost first = push_some(Seq::<Object<Self>>::empty(), self.proto_in(*activation));
        let ghost start = *activation;
        let mut proto_stack: Vec<Object<Self>> = Vec::new();
        if let Some(p) = self.proto(&*activation) {
            proto_stack.push(p);
        }
        assert(proto_stack@ =~= first);
        let ghost mut fuel: nat = choose|fuel: nat| #[trigger]
            instance_check_ends(fuel, first, constructor, prototype, start);
        let ghost mut used: nat = 0;

        loop
            invariant
                instance_check_ends(fuel, proto_stack@, constructor, prototype, *activation),
                start == *old(activation),
                first == push_some(Seq::<Object<Self>>::empty(), self.proto_in(start)),
                forall|more: nat, after: Self::Activation, result|
                    #[trigger] instance_outcome(
                        more,
                        proto_stack@,
                        constructor,
                        prototype,
                        *activation,
                        after,
                        result,
                    ) ==> instance_outcome(
                        more + used,
                        first,
                        constructor,
                        prototype,
                        start,
                        after,
                        result,
                    ),
            decreases fuel,
        {
            let ghost before = *activation;
            let ghost stack = proto_stack@;
            let this_proto: Object<Self> = match proto_stack.pop() {
                Some(this_proto) => this_proto,
                None => {
                    let result = Ok(false);
                    assert(instance_outcome(
                        0,
                        stack,
                        constructor,
                        prototype,
                        before,
                        *activation,
                        result,
                    ));
                    return result;
                },
            };
            assert(stack.last() == this_proto && stack.drop_last() =~= proto_stack@);

            if Object::ptr_eq(this_proto, prototype) {
                let result = Ok(true);
                assert(instance_outcome(
                    1,
                    stack,
                    constructor,
                    prototype,
                    before,
                    *activation,
                    result,
                ));
                return result;
            }
            if let Some(p) = this_proto.repr.proto(&*activation) {
                proto_stack.push(p);
            }
            let ghost rest = push_some(stack.drop_last(), this_proto.repr.proto_in(before));
            assert(proto_stack@ =~= rest);

            if Self::current_swf_version(&*activation) >= INTERFACES_SWF_VERSION {
                let interfaces: Vec<Object<Self>> = this_proto.repr.interfaces(&*activation);
                let mut i: usize = 0;
                while i < interfaces.len()
                    invariant
                        i <= interfaces.len(),
                        start == *old(activation),
                        first == push_some(Seq::<Object<Self>>::empty(), self.proto_in(start)),
                        forall|after: Self::Activation, scan|
                            #[trigger] scan_outcome(
                                interfaces@,
                                i as int,
                                proto_stack@,
                                constructor,
                                *activation,
                                after,
                                scan,
                            ) ==> scan_outcome(
                                interfaces@,
                                0,
                                rest,
                                constructor,
                                before,
                                after,
                                scan,
                            ),
                        stack.len() > 0,
                        stack.last() == this_proto,
                        stack.last().repr.ptr() != prototype.repr.ptr(),
                        rest == push_some(stack.drop_last(), this_proto.repr.proto_in(before)),
                        Self::swf_version_in(before) >= INTERFACES_SWF_VERSION,
                        interfaces@ == this_proto.repr.interfaces_in(before),
                        forall|more: nat, after: Self::Activation, result|
                            #[trigger] instance_outcome(
                                more,
                                stack,
                                constructor,
                                prototype,
                                before,
                                after,
                                result,
                            ) ==> instance_outcome(
                                more + used,
                                first,
                                constructor,
                                prototype,
                                start,
                                after,
                                result,
                            ),
                    decreases interfaces.len() - i,
                {
                    let interface: Object<Self> = interfaces[i];
                    let ghost scanned = *activation;
                    if Object::ptr_eq(interface, constructor) {
                        let result = Ok(true);
                        assert(scan_outcome(
                            interfaces@,
                            i as int,
                            proto_stack@,
                            constructor,
                            scanned,
                            *activation,
                            InterfaceScan::<Self, Self::Failure>::Implements,
                        ));
                        assert(instance_outcome(
                            1,
                            stack,
                            constructor,
                            prototype,
                            before,
                            *activation,
                            result,
                        ));
                        return result;
                    }
                    match interface.repr.get("prototype", activation) {
                        Ok(value) => {
                            proof {
                                let mid = *activation;
                                let pushed = push_object(proto_stack@, value);
                                assert forall|after: Self::Activation, scan| #[trigger]
                                    scan_outcome(
                                        interfaces@,
                                        i + 1,
                                        pushed,
                                        constructor,
                                        mid,
                                        after,
                                        scan,
                                    ) implies scan_outcome(
                                    interfaces@,
                                    i as int,
                                    proto_stack@,
                                    constructor,
                                    scanned,
                                    after,
                                    scan,
                                ) by {
                                    assert(get_outcome(
                                        interfaces@[i as int],
                                        "prototype"@,
                                        scanned,
                                        mid,
                                        Ok(value),
                                    ));
                                }
                            }
                            if let Value::Object(o) = value {
                                proto_stack.push(o);
                            }
                        },
                        Err(error) => {
                            let result = Err(error);
                            assert(scan_outcome(
                                interfaces@,
                                i as int,
                                proto_stack@,
                                constructor,
                                scanned,
                                *activation,
                                InterfaceScan::<Self, Self::Failure>::Failed(error),
                            ));
                            assert(instance_outcome(
                                1,
                                stack,
                                constructor,
                                prototype,
                                before,
                                *activation,
                                result,
                            ));
                            return result;
                        },
                    }
                    i += 1;
                }
                assert(scan_outcome(
                    interfaces@,
                    i as int,
                    proto_stack@,
                    constructor,
                    *activation,
                    *activation,
                    InterfaceScan::<Self, Self::Failure>::Pending(proto_stack@),
                ));
            }
            proof {
                let mid = *activation;
                assert forall|more: nat, after: Self::Activation, result| #[trigger]
                    instance_outcome(
                        more,
                        proto_stack@,
                        constructor,
                        prototype,
                        mid,
                        after,
                        result,
                    ) implies instance_outcome(
                    more + 1 + used,
                    first,
                    constructor,
                    prototype,
                    start,
                    after,
                    result,
                ) by {
                    assert(instance_outcome(
                        more + 1,
                        stack,
                        constructor,
                        prototype,
                        before,
                        after,
                        result,
                    ));
                }
                fuel = (fuel - 1) as nat;
                used = used + 1;
            }
        }
    }

    /// Construct the underlying object, if this is a valid constructor, and
    /// return the result. Calling this on something other than a constructor
    /// will return a new Undefined object.
    fn construct(&self, activation: &mut Self::Activation, _args: &[Value<Self>]) -> (result:
        Result<Object<Self>, Error<Self::Failure>>)
        default_ensures
            result matches Ok(object) && Self::undefined_to_object_outcome(
                *old(activation),
                *final(activation),
                object,
            ),
    {
        Ok(Self::undefined_to_object(activation))
    }

    /// Takes an already existing object and performs this constructor (if
    /// valid) on it.
    fn construct_on_existing(
        &self,
        _activation: &mut Self::Activation,
        _this: Object<Self>,
        _args: &[Value<Self>],
    ) -> (result: Result<(), Error<Self::Failure>>)
        default_ensures
            result is Ok,
            *final(_activation) == *old(_activation),
    {
        Ok(())
    }

    /// Get the underlying sound object, if it exists.
    fn as_sound_object(&self) -> (sound: Option<Self::SoundObject>)
        default_ensures
            sound is None,
    {
        None
    }

    /// Get the underlying stage object, if it exists.
    fn as_stage_object(&self) -> (stage: Option<Self::StageObject>)
        default_ensures
            stage is None,
    {
        None
    }

    /// Get the underlying super object, if it exists.
    fn as_super_object(&self) -> (super_object: Option<Self::SuperObject>)
        default_ensures
            super_object is None,
    {
        None
    }

    /// Get the underlying display node for this object, if it exists.
    fn as_display_object(&self) -> (display: Option<Self::DisplayObject>)
        default_ensures
            display is None,
    {
        None
    }

    /// Get the underlying executable for this object, if it exists.
    fn as_executable(&self) -> (executable: Option<Self::Executable>)
        default_ensures
            executable is None,
    {
        None
    }

    /// Get the underlying XML node for this object, if it exists.
    fn as_xml_node(&self) -> (node: Option<Self::XMLNode>)
        default_ensures
            node is None,
    {
        None
    }

    /// Get the underlying `ValueObject`, if it exists.
    fn as_value_object(&self) -> (value: Option<Self::ValueObject>)
        default_ensures
            value is None,
    {
        None
    }

    /// Get the underlying `SharedObject`, if it exists.
    fn as_shared_object(&self) -> (shared: Option<Self::SharedObject>)
        default_ensures
            shared is None,
    {
        None
    }

    /// Get the underlying `DateObject`, if it exists.
    fn as_date_object(&self) -> (date: Option<Self::DateObject>)
        default_ensures
            date is None,
    {
        None
    }

    /// Get the underlying `ColorTransformObject`, if it exists.
    fn as_color_transform_object(&self) -> (transform: Option<Self::ColorTransformObject>)
        default_ensures
            transform is None,
    {
        None
    }

    /// Get the underlying `TransformObject`, if it exists.
    fn as_transform_object(&self) -> (transform: Option<Self::TransformObject>)
        default_ensures
            transform is None,
    {
        None
    }

    /// Get the underlying `BlurFilterObject`, if it exists.
    fn as_blur_filter_object(&self) -> (filter: Option<Self::BlurFilterObject>)
        default_ensures
            filter is None,
    {
        None
    }

    /// Get the underlying `BevelFilterObject`, if it exists.
    fn as_bevel_filter_object(&self) -> (filter: Option<Self::BevelFilterObject>)
        default_ensures
            filter is None,
    {
        None
    }
}

/// Past the end of a prototype chain there is nothing.
pub proof fn lemma_chain_stays_ended<T: ObjectCore>(
    object: Object<T>,
    state: T::Activation,
    end: nat,
    later: nat,
)
    requires
        nth_proto(object, state, end) is None,
        end <= later,
    ensures
        nth_proto(object, state, later) is None,
    decreases later - end,
{
    if later > end {
        lemma_chain_stays_ended(object, state, end, (later - 1) as nat);
    }
}

} // verus!
